use souls_lean::ast::routes::{backend_routes, frontend_routes, is_skipped_by_route_scan, route_side, RouteSide};
use souls_lean::ast::imports::{
    import_language, import_literals, is_relative_script_import, python_relative_module, rust_module_candidates,
    rust_module_file, ImportLanguage,
};
use souls_lean::context_compression::stitcher::ContextStitcher;
use souls_lean::ast::routes::{build_route_report, RouteEntry};
use souls_lean::ast::wasm_engine::{
    classify_trap, WasmMemoryLimiter, WasmTrap, FUEL_LIMIT, MEMORY_LIMIT_BYTES, MEMORY_LIMIT_BYTES_GRAMMAR,
    MEMORY_LIMIT_BYTES_PYTHON,
};
use souls_lean::context::multi_read::FileCompaction;
use souls_lean::lean_vacuum::repo_heatmap::HeatmapError;

fn entry(name: &str, file: &str) -> RouteEntry {
    RouteEntry { name: name.to_string(), file: file.to_string(), line: 1 }
}

#[test]
fn memory_limiter_allows_growth_up_to_its_ceiling() {
    let l = WasmMemoryLimiter::new(MEMORY_LIMIT_BYTES_GRAMMAR);
    assert!(l.memory_growing(0, 16 * 1024 * 1024, None));
    assert!(!l.memory_growing(0, 16 * 1024 * 1024 + 1, None));
    assert!(l.table_growing(0, usize::MAX, None));
    assert_eq!(MEMORY_LIMIT_BYTES, 16 * 1024 * 1024);
    assert_eq!(MEMORY_LIMIT_BYTES_PYTHON, 32 * 1024 * 1024);
    assert_eq!(FUEL_LIMIT, 10_000_000);
}

#[test]
fn wasm_trap_messages() {
    assert_eq!(WasmTrap::Unreachable { reason: "x".into() }.message(), "WASM_UNREACHABLE: x");
    assert_eq!(WasmTrap::Oom { reason: "y".into() }.message(), "WASM_OOM: y");
    assert_eq!(
        WasmTrap::FuelExhausted { fuel_consumed: 42 }.message(),
        "WASM_FUEL_EXHAUSTED: guest consumiu 42 fuel units (teto 10000000)"
    );
    assert_eq!(WasmTrap::PermissionDenied { reason: "p".into() }.message(), "WASM_PERMISSION_DENIED: p");
    assert_eq!(WasmTrap::StructuredFailure { reason: "s".into() }.message(), "WASM_STRUCTURED_FAILURE: s");
    assert_eq!(WasmTrap::HostPanic { reason: "h".into() }.message(), "WASM_HOST_PANIC: h");
}

#[test]
fn classify_trap_reads_the_description() {
    assert!(matches!(classify_trap("wasm trap: UNREACHABLE executed".into(), 1), WasmTrap::Unreachable { .. }));
    assert!(matches!(classify_trap("Memory Growth failed".into(), 1), WasmTrap::Oom { .. }));
    assert!(matches!(classify_trap("all fuel consumed".into(), 7), WasmTrap::FuelExhausted { fuel_consumed: 7 }));
    assert!(matches!(classify_trap("Access Denied".into(), 1), WasmTrap::PermissionDenied { .. }));
    match classify_trap("something else".into(), 1) {
        WasmTrap::StructuredFailure { reason } => assert_eq!(reason, "something else"),
        _ => panic!("expected a structured failure"),
    }
}

#[test]
fn route_report_finds_orphans_and_dead_calls() {
    let backend = vec![entry("save", "a.rs"), entry("load", "a.rs"), entry("load", "b.rs"), entry("zap", "c.rs")];
    let frontend = vec![entry("load", "x.ts"), entry("ghost", "y.svelte")];
    let r = build_route_report(backend, frontend);
    assert_eq!(r.orphans, vec!["save".to_string(), "zap".to_string()]);
    assert_eq!(r.dead_calls, vec!["ghost".to_string()]);
    assert_eq!(r.backend.len(), 4);
    assert_eq!(r.frontend.len(), 2);
}

#[test]
fn heatmap_error_messages() {
    assert_eq!(HeatmapError::InvalidPath("r".into()).message(), "caminho invalido: r");
    assert_eq!(HeatmapError::Io("d".into()).message(), "falha de I/O ao varrer repositorio: d");
    assert_eq!(HeatmapError::Sqlite("q".into()).message(), "falha de SQLite: q");
}

#[test]
fn file_compaction_records_sizes_or_the_failure() {
    let ok = FileCompaction::done("f.rs".into(), "héllo", "h".into());
    assert_eq!((ok.original_bytes, ok.compacted_bytes), (6, 1));
    assert!(ok.error.is_none());
    let bad = FileCompaction::failed("g.rs".into(), "not found");
    assert_eq!(bad.error.as_deref(), Some("read_error: not found"));
    assert_eq!(bad.compacted, "");
    assert_eq!((bad.original_bytes, bad.compacted_bytes), (0, 0));
}

#[test]
fn routes_contract_found_in_file_texts() {
    let backend = r#"
        use tauri::command;

        #[tauri::command]
        fn greet(name: String) -> String {
            format!("Hello, {}!", name)
        }

        #[tauri::command(async)]
        async fn fetch_data() -> Result<String, String> {
            Ok("data".to_string())
        }
    "#;
    let frontend = r#"
        <script>
            import { invoke } from '@tauri-apps/api/core';
            async function handleClick() {
                await invoke('greet', { name: 'World' });
                await invoke('fetch_data');
                await invoke('unknown_command');
            }
        </script>
    "#;
    let b = backend_routes("commands.rs", backend);
    let got: Vec<(String, String, usize)> = b.iter().map(|e| (e.name.clone(), e.file.clone(), e.line)).collect();
    assert_eq!(
        got,
        vec![
            ("greet".to_string(), "commands.rs".to_string(), 5),
            ("fetch_data".to_string(), "commands.rs".to_string(), 10),
        ]
    );
    let f = frontend_routes("src/App.svelte", frontend);
    let got: Vec<(String, usize)> = f.iter().map(|e| (e.name.clone(), e.line)).collect();
    assert_eq!(
        got,
        vec![("greet".to_string(), 5), ("fetch_data".to_string(), 6), ("unknown_command".to_string(), 7)]
    );
    let report = build_route_report(b, f);
    assert!(report.orphans.is_empty());
    assert_eq!(report.dead_calls, vec!["unknown_command".to_string()]);
}

#[test]
fn frontend_routes_need_invoke_nearby() {
    let text = "const label = 'greet';\ninvoke(\"save_file\", {});\n";
    let f = frontend_routes("a.ts", text);
    assert_eq!(f.len(), 1);
    assert_eq!(f[0].name, "save_file");
    assert_eq!(f[0].line, 2);
    let far = format!("invoke({}'late')", " ".repeat(40));
    assert!(frontend_routes("b.ts", &far).is_empty());
}

#[test]
fn unit_import_regex_captures_rust_crate() {
    assert_eq!(
        import_literals("use crate::cognition::lean_vacuum::repo_impact;"),
        vec!["cognition::lean_vacuum::repo_impact".to_string()]
    );
}

#[test]
fn unit_import_regex_captures_js_require() {
    assert_eq!(import_literals(r#"const x = require("./foo");"#), vec!["./foo".to_string()]);
}

#[test]
fn unit_import_regex_captures_python_from() {
    assert_eq!(import_literals("from .mod import util"), vec![".mod".to_string()]);
}

#[test]
fn import_literals_cover_every_language_in_order() {
    let text = "mod super::util;\nimport './x';\n#include \"lib.h\"\nfrom pkg.sub import y\n";
    assert_eq!(
        import_literals(text),
        vec!["util".to_string(), "./x".to_string(), "lib.h".to_string(), "pkg.sub".to_string()]
    );
}

#[test]
fn rust_module_paths_name_files() {
    assert_eq!(rust_module_file("crate::a::b"), "a/b");
    assert_eq!(rust_module_file("  crate::crate::a  "), "a");
    assert_eq!(rust_module_file("super::self::m"), "m");
    assert_eq!(rust_module_candidates("super::x"), vec!["x.rs".to_string(), "x/mod.rs".to_string()]);
}

#[test]
fn prose_compressor_barrier() {
    assert!(ContextStitcher::is_prose_compressor_allowed_for_path("README.md"));
    assert!(ContextStitcher::is_prose_compressor_allowed_for_path("  notes.txt  "));
    assert!(!ContextStitcher::is_prose_compressor_allowed_for_path("src/main.rs"));
    assert!(!ContextStitcher::is_prose_compressor_allowed_for_path("config.yaml "));
    assert!(!ContextStitcher::is_prose_compressor_allowed_for_path("fn main() {}"));
    assert!(!ContextStitcher::is_prose_compressor_allowed_for_path("my def value"));
    let s = ContextStitcher::new("sys".to_string(), vec![], "state".to_string(), "tail".to_string());
    assert_eq!(s.z4_dynamic(), "tail");
}

#[test]
fn route_scan_reads_backend_and_frontend_files() {
    assert_eq!(route_side("rs"), RouteSide::Backend);
    assert_eq!(route_side("svelte"), RouteSide::Frontend);
    assert_eq!(route_side("tsx"), RouteSide::Frontend);
    assert_eq!(route_side("md"), RouteSide::Neither);
    assert_eq!(route_side(""), RouteSide::Neither);
    assert!(is_skipped_by_route_scan("dist"));
    assert!(is_skipped_by_route_scan(".souls_data"));
    assert!(!is_skipped_by_route_scan("src"));
}

#[test]
fn import_resolution_by_language() {
    assert_eq!(import_language("rs"), ImportLanguage::Rust);
    assert_eq!(import_language("jsx"), ImportLanguage::Script);
    assert_eq!(import_language("py"), ImportLanguage::Python);
    assert_eq!(import_language("cpp"), ImportLanguage::Header);
    assert_eq!(import_language("go"), ImportLanguage::Other);
    assert!(is_relative_script_import(" ./a "));
    assert!(is_relative_script_import("../b"));
    assert!(!is_relative_script_import("react"));
    assert_eq!(python_relative_module("..pkg.mod"), Some("pkg.mod".to_string()));
    assert_eq!(python_relative_module("os"), None);
}
