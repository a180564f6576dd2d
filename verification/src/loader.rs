use vstd::prelude::*;

use crate::json::{json_check, json_parse_error, json_quoted, json_string};
use crate::typescript::{strip_types_fast_default, strip_result};
use crate::unicode::str_eq;

verus! {

/// Loads TypeScript modules (`.ts`, `.mts`, `.cts`), stripping their types.
pub struct TsLoader;

impl TsLoader {
    /// Whether a file with this extension is loaded as TypeScript.
    pub fn accepts(ext: Option<&str>) -> (b: bool)
        ensures
            b == (ext matches Some(e) && (e@ == "ts"@ || e@ == "mts"@ || e@ == "cts"@)),
    {
        match ext {
            Some(e) => str_eq(e, "ts") || str_eq(e, "mts") || str_eq(e, "cts"),
            None => false,
        }
    }

    /// The code of a TypeScript module read as `source`: its types
    /// stripped, or the message of the syntax errors.
    pub fn code(source: &str) -> (r: Result<String, String>)
        ensures
            match r {
                Ok(s) => strip_result(source@, None) == Ok::<Seq<char>, Seq<char>>(s@),
                Err(m) => strip_result(source@, None) == Err::<Seq<char>, Seq<char>>(m@),
            },
    {
        strip_types_fast_default(source)
    }
}

/// Loads data modules: JSON and text files, as a default export.
pub struct DataLoader;

/// What a data module is.
#[derive(Debug, Clone, Copy, PartialEq, Eq, Structural)]
pub enum DataKind {
    Json,
    Text,
    Unsupported,
}

/// The kind of data module a type names: `json`, `text` or `txt`.
pub open spec fn data_kind_of(t: Option<Seq<char>>) -> DataKind {
    match t {
        Some(t) => if t == "json"@ {
            DataKind::Json
        } else if t == "text"@ || t == "txt"@ {
            DataKind::Text
        } else {
            DataKind::Unsupported
        },
        None => DataKind::Unsupported,
    }
}

/// The type a data module is read as: the import's `type` attribute where
/// it has one, else the file's extension.
pub open spec fn data_type_of(attr: Option<Seq<char>>, ext: Option<Seq<char>>) -> Option<Seq<char>> {
    match attr {
        Some(t) => Some(t),
        None => ext,
    }
}

/// The code of a data module read as `raw`.
pub open spec fn data_code_spec(kind: DataKind, raw: Seq<char>) -> Result<Seq<char>, Seq<char>> {
    match kind {
        DataKind::Json => match json_parse_error(raw) {
            None => Ok("export default "@ + raw + ";"@),
            Some(e) => Err(e),
        },
        DataKind::Text => Ok("export default "@ + json_quoted(raw) + ";"@),
        DataKind::Unsupported => Err("unsupported data type"@),
    }
}

impl DataLoader {
    /// The kind of a module: the `type` import attribute where it is given,
    /// else the file's extension.
    pub fn kind(attr_type: Option<&str>, ext: Option<&str>) -> (k: DataKind)
        ensures
            k == data_kind_of(
                data_type_of(
                    match attr_type {
                        Some(t) => Some(t@),
                        None => None,
                    },
                    match ext {
                        Some(e) => Some(e@),
                        None => None,
                    },
                ),
            ),
    {
        let t = match attr_type {
            Some(t) => Some(t),
            None => ext,
        };
        match t {
            Some(t) => if str_eq(t, "json") {
                DataKind::Json
            } else if str_eq(t, "text") || str_eq(t, "txt") {
                DataKind::Text
            } else {
                DataKind::Unsupported
            },
            None => DataKind::Unsupported,
        }
    }

    /// The code of a data module read as `raw`: JSON (checked) as it is,
    /// text as a JSON string, each as the default export.
    pub fn code(kind: DataKind, raw: &str) -> (r: Result<String, String>)
        ensures
            match r {
                Ok(s) => data_code_spec(kind, raw@) == Ok::<Seq<char>, Seq<char>>(s@),
                Err(m) => data_code_spec(kind, raw@) == Err::<Seq<char>, Seq<char>>(m@),
            },
    {
        match kind {
            DataKind::Json => match json_check(raw) {
                Ok(_) => {
                    let mut code = String::from_str("export default ");
                    code.append(raw);
                    code.append(";");
                    Ok(code)
                },
                Err(e) => Err(e),
            },
            DataKind::Text => {
                let quoted = json_string(raw);
                let mut code = String::from_str("export default ");
                code.append(quoted.as_str());
                code.append(";");
                Ok(code)
            },
            DataKind::Unsupported => Err(String::from_str("unsupported data type")),
        }
    }
}

/// Resolves module names against the modules of a bundle.
pub struct EmbeddedResolver {
    modules: Vec<String>,
}

impl EmbeddedResolver {
    /// The names of the modules, each once.
    pub closed spec fn names(&self) -> Set<Seq<char>> {
        self.modules@.map_values(|s: String| s@).to_set()
    }

    /// A resolver for the modules with these names.
    pub fn new(module_names: Vec<String>) -> (r: Self)
        ensures
            r.names() == module_names@.map_values(|s: String| s@).to_set(),
    {
        EmbeddedResolver { modules: module_names }
    }

    /// Whether the bundle has a module with this name.
    pub fn contains(&self, name: &str) -> (b: bool)
        ensures
            b == self.names().contains(name@),
    {
        let ghost v = self.modules@.map_values(|s: String| s@);
        for i in 0..self.modules.len()
            invariant
                v == self.modules@.map_values(|s: String| s@),
                forall|j: int| 0 <= j < i ==> v[j] != name@,
        {
            if str_eq(self.modules[i].as_str(), name) {
                proof {
                    assert(v[i as int] == name@);
                    assert(v.contains(name@));
                }
                return true;
            }
        }
        proof {
            if v.to_set().contains(name@) {
                assert(v.contains(name@));
                let j = choose|j: int| 0 <= j < v.len() && v[j] == name@;
                assert(v[j] != name@);
            }
        }
        false
    }

    /// Resolves a bare module name: itself where the bundle has it, else
    /// `module not found in bundle`.
    pub fn resolve_bare(&self, name: &str) -> (r: Result<String, String>)
        ensures
            self.names().contains(name@) ==> (r matches Ok(s) && s@ == name@),
            !self.names().contains(name@) ==> (r matches Err(m) && m@ == "module not found in bundle"@),
    {
        if self.contains(name) {
            Ok(String::from_str(name))
        } else {
            Err(String::from_str("module not found in bundle"))
        }
    }
}

/// A module imported with type `text` or `txt` (or, without a type, a file
/// with one of these extensions) loads as its contents, as a default-exported
/// string, whatever the file's extension; `json` names JSON; no other type
/// loads as text.
pub proof fn lemma_text_modules(raw: Seq<char>, ext: Option<Seq<char>>, t: Seq<char>)
    ensures
        data_code_spec(data_kind_of(data_type_of(Some("text"@), ext)), raw) == Ok::<Seq<char>, Seq<char>>(
            "export default "@ + json_quoted(raw) + ";"@,
        ),
        data_code_spec(data_kind_of(data_type_of(Some("txt"@), ext)), raw) == Ok::<Seq<char>, Seq<char>>(
            "export default "@ + json_quoted(raw) + ";"@,
        ),
        data_kind_of(data_type_of(None, Some("text"@))) == DataKind::Text,
        data_kind_of(data_type_of(None, Some("txt"@))) == DataKind::Text,
        data_kind_of(data_type_of(Some("json"@), ext)) == DataKind::Json,
        data_kind_of(Some(t)) == DataKind::Text ==> (t == "text"@ || t == "txt"@),
        data_kind_of(data_type_of(Some(t), ext)) == data_kind_of(Some(t)),
{
    reveal_strlit("text");
    reveal_strlit("txt");
    reveal_strlit("json");
    reveal_strlit("export default ");
    reveal_strlit(";");
    assert("text"@[0] != "json"@[0]);
    assert("txt"@.len() != "json"@.len());
}

} // verus!
