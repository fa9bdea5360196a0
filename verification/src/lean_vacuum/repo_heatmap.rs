//! Errors of the repository heat map.
use vstd::prelude::*;
use crate::text::{to_chars, from_chars, append_chars};

verus! {

/// Why the heat map could not be computed.
pub enum HeatmapError {
    InvalidPath(String),
    Io(String),
    Sqlite(String),
}

impl HeatmapError {
    /// The error's message.
    pub fn message(&self) -> (r: String)
        ensures
            r@ == match self {
                HeatmapError::InvalidPath(m) => "caminho invalido: "@ + m@,
                HeatmapError::Io(m) => "falha de I/O ao varrer repositorio: "@ + m@,
                HeatmapError::Sqlite(m) => "falha de SQLite: "@ + m@,
            },
    {
        let (head, m) = match self {
            HeatmapError::InvalidPath(m) => ("caminho invalido: ", m),
            HeatmapError::Io(m) => ("falha de I/O ao varrer repositorio: ", m),
            HeatmapError::Sqlite(m) => ("falha de SQLite: ", m),
        };
        let mut cs = to_chars(head);
        append_chars(&mut cs, &to_chars(m.as_str()));
        from_chars(&cs)
    }
}

} // verus!
