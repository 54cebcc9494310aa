//! Script languages, the script kinds a request can ask for, and the errors a
//! script run can end in.
use vstd::prelude::*;

use crate::text::{trim_end, trim_end_seq};

verus! {

/// The language a recorded script was written in.
#[derive(Debug, Clone, Copy, PartialEq, Eq, Structural)]
pub enum ScriptLanguage {
    JavaScript,
    Shell,
}

impl ScriptLanguage {
    /// The lowercase name of the language.
    pub open spec fn name(self) -> Seq<char> {
        match self {
            ScriptLanguage::JavaScript => "javascript"@,
            ScriptLanguage::Shell => "shell"@,
        }
    }

    /// The name as serde writes the variant (its identifier).
    pub open spec fn variant_name(self) -> Seq<char> {
        match self {
            ScriptLanguage::JavaScript => "JavaScript"@,
            ScriptLanguage::Shell => "Shell"@,
        }
    }

    /// The lowercase name of the language.
    pub fn as_str(&self) -> (r: &str)
        ensures
            r@ == self.name(),
    {
        match self {
            ScriptLanguage::JavaScript => "javascript",
            ScriptLanguage::Shell => "shell",
        }
    }

    /// The variant's identifier, as it stands in the JSON record of a script.
    pub fn variant_str(&self) -> (r: &str)
        ensures
            r@ == self.variant_name(),
    {
        match self {
            ScriptLanguage::JavaScript => "JavaScript",
            ScriptLanguage::Shell => "Shell",
        }
    }
}

/// A script to run, tagged with its language.
#[derive(Debug)]
pub enum ScriptType {
    JavaScript(String),
    Shell(String),
}

/// A script run that failed: through the script's fault, or the service's.
#[derive(Debug)]
pub enum RuntimeError {
    UserError(String),
    InternalError(String),
}

/// The text of the entries of `parts` with `sep` between each two.
pub open spec fn joined(parts: Seq<Seq<char>>, sep: Seq<char>) -> Seq<char>
    decreases parts.len(),
{
    if parts.len() == 0 {
        Seq::empty()
    } else if parts.len() == 1 {
        parts[0]
    } else {
        joined(parts.drop_last(), sep) + sep + parts.last()
    }
}

/// The message listing the languages a script may be written in.
pub open spec fn available_message() -> Seq<char> {
    "javascript"@ + ", "@ + "shell"@
}

impl ScriptType {
    /// The names of the languages scripts may be written in.
    pub fn available() -> (r: Vec<String>)
        ensures
            r@.len() == 2,
            r@[0]@ == "javascript"@,
            r@[1]@ == "shell"@,
    {
        let mut r: Vec<String> = Vec::new();
        r.push(String::from_str("javascript"));
        r.push(String::from_str("shell"));
        r
    }

    /// The language of the script.
    pub fn language(&self) -> (r: ScriptLanguage)
        ensures
            r == (match self {
                ScriptType::JavaScript(_) => ScriptLanguage::JavaScript,
                ScriptType::Shell(_) => ScriptLanguage::Shell,
            }),
    {
        match self {
            ScriptType::JavaScript(_) => ScriptLanguage::JavaScript,
            ScriptType::Shell(_) => ScriptLanguage::Shell,
        }
    }
}

/// The texts of `parts`, joined with `sep` (`[String]::join`).
pub fn join(parts: &Vec<String>, sep: &str) -> (r: String)
    ensures
        r@ == joined(parts@.map_values(|p: String| p@), sep@),
{
    let ghost views = parts@.map_values(|p: String| p@);
    let mut r = String::new();
    let mut i: usize = 0;
    while i < parts.len()
        invariant
            i <= parts.len(),
            views == parts@.map_values(|p: String| p@),
            r@ == joined(views.take(i as int), sep@),
        decreases parts.len() - i,
    {
        if i > 0 {
            r.append(sep);
        }
        r.append(parts[i].as_str());
        proof {
            let t = views.take(i + 1);
            assert(t.drop_last() =~= views.take(i as int));
            assert(t.last() == parts@[i as int]@);
            if i == 0 {
                assert(r@ =~= joined(t, sep@));
            }
        }
        i = i + 1;
    }
    assert(views.take(parts.len() as int) =~= views);
    r
}

/// Chooses the script kind for a request body from the request's content type:
/// an absent content type counts as `application/javascript`, which is the only
/// one accepted; any other is the caller's error, naming the languages available.
pub fn script_type_for(content_type: &str, script: String) -> (r: Result<ScriptType, RuntimeError>)
    ensures
        (content_type@.len() == 0 || content_type@ == "application/javascript"@) ==> r == Ok::<
            ScriptType,
            RuntimeError,
        >(ScriptType::JavaScript(script)),
        !(content_type@.len() == 0 || content_type@ == "application/javascript"@) ==> (
        match r {
            Err(RuntimeError::UserError(m)) => m@ == available_message(),
            _ => false,
        }),
{
    let effective = if content_type.is_empty() {
        "application/javascript"
    } else {
        content_type
    };
    if crate::text::str_eq(effective, "application/javascript") {
        Ok(ScriptType::JavaScript(script))
    } else {
        let names = ScriptType::available();
        let m = join(&names, ", ");
        proof {
            let v = names@.map_values(|p: String| p@);
            assert(v.len() == 2);
            assert(v.drop_last().len() == 1);
            assert(v[0] == "javascript"@ && v[1] == "shell"@);
            assert(joined(v.drop_last(), ", "@) == v.drop_last()[0]);
        }
        Err(RuntimeError::UserError(m))
    }
}

impl RuntimeError {
    /// The HTTP status and body that answer a request whose script failed:
    /// 400 for the script's fault, 500 for the service's.
    pub fn into_response(self) -> (r: (u16, String))
        ensures
            match self {
                RuntimeError::UserError(m) => r.0 == 400 && r.1 == m,
                RuntimeError::InternalError(m) => r.0 == 500 && r.1 == m,
            },
    {
        match self {
            RuntimeError::UserError(m) => (400, m),
            RuntimeError::InternalError(m) => (500, m),
        }
    }
}

/// The result of a shell script from its exit status and output: standard output
/// without trailing whitespace when it succeeded, else its standard error as the
/// script's fault.
pub fn shell_outcome(success: bool, stdout: &str, stderr: String) -> (r: Result<String, RuntimeError>)
    ensures
        success ==> (match r {
            Ok(out) => out@ == trim_end_seq(stdout@),
            Err(_) => false,
        }),
        !success ==> r == Err::<String, RuntimeError>(RuntimeError::UserError(stderr)),
{
    if success {
        Ok(trim_end(stdout))
    } else {
        Err(RuntimeError::UserError(stderr))
    }
}

} // verus!
