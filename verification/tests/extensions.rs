use souls_lean::context::extensions::{
    exclude_dirs, is_excluded_dir, is_source_ext, source_extensions,
};

#[test]
fn is_source_ext_covers_lean_ctx_list() {
    for ext in [
        "rs", "ts", "tsx", "js", "jsx", "py", "go", "java", "c", "cpp", "h", "rb", "cs", "kt",
        "swift", "php", "svelte", "vue",
    ] {
        assert!(is_source_ext(ext), "{ext} deve ser reconhecido como source");
    }
}

#[test]
fn is_source_ext_covers_config_as_code() {
    for ext in ["yaml", "yml", "toml", "json"] {
        assert!(is_source_ext(ext), "{ext} deve ser reconhecido como source");
    }
}

#[test]
fn is_source_ext_rejects_non_code() {
    for ext in ["md", "txt", "log", "png", "jpg", "exe", "dll", "so"] {
        assert!(!is_source_ext(ext), "{ext} não deve ser source: {:?}", source_extensions());
    }
}

#[test]
fn is_excluded_dir_covers_lean_ctx_list() {
    for d in ["node_modules", "target", "dist", "__pycache__"] {
        assert!(is_excluded_dir(d), "{d} deve ser excluído");
    }
}

#[test]
fn is_excluded_dir_handles_dotfiles() {
    for d in [".git", ".idea", ".vscode", ".cargo"] {
        assert!(is_excluded_dir(d), "{d} deve ser excluído (dotfile)");
    }
}

#[test]
fn is_excluded_dir_covers_souls_extras() {
    for d in [".souls_cache", ".souls_data", ".souls_scratchpad", "vendor", "_build", "deps", "build", ".venv"] {
        assert!(is_excluded_dir(d), "{d} deve ser excluído (souls/extra)");
    }
}

#[test]
fn is_excluded_dir_does_not_overexclude() {
    for d in ["src", "tests", "examples", "docs", "scripts", "bin", "lib"] {
        assert!(!is_excluded_dir(d), "{d} NÃO deve ser excluído");
    }
}

#[test]
fn constants_have_expected_size() {
    assert_eq!(source_extensions().len(), 22, "22 extensões canônicas");
    assert_eq!(exclude_dirs().len(), 22, "22 exclusões canônicas");
}

#[test]
fn is_excluded_dir_strips_leading_dots() {
    assert!(is_excluded_dir("..target"));
    assert!(is_excluded_dir(".node_modules"));
    assert!(!is_excluded_dir("."));
    assert!(!is_excluded_dir(""));
}
