//! Scripts that have been run, as the store records them.
use vstd::prelude::*;

use crate::json::{json_string, push_json_string};
use crate::kv_store::{kv_insert, KeyValueStore, SCRIPT_CONTEXT};
use crate::runtime::{RuntimeError, ScriptLanguage};
use crate::text::{
    before_newline, is_ws, first_line, push_chars, replace, replace_seq, starts_with_seq, string_of, trim,
    trim_end_seq, trim_seq, trim_start_seq,
};

verus! {

/// The name of a script: its first line, trimmed, with every `//` taken out.
pub open spec fn script_name_of(content: Seq<char>) -> Seq<char> {
    replace_seq(trim_seq(before_newline(content)), "//"@, Seq::empty())
}

/// No character of `s` is `c`.
pub open spec fn lacks_char(s: Seq<char>, c: char) -> bool {
    forall|i: int| 0 <= i < s.len() ==> #[trigger] s[i] != c
}

/// No two neighbouring characters of `s` are both `/`.
pub open spec fn lacks_double_slash(s: Seq<char>) -> bool {
    forall|i: int| 0 <= i < s.len() - 1 ==> !(#[trigger] s[i] == '/' && s[i + 1] == '/')
}

proof fn lemma_before_newline_single_line(s: Seq<char>)
    ensures
        lacks_char(before_newline(s), '\n'),
    decreases s.len(),
{
    if s.len() > 0 && s[0] != '\n' {
        lemma_before_newline_single_line(s.drop_first());
        let r = before_newline(s);
        assert forall|i: int| 0 <= i < r.len() implies #[trigger] r[i] != '\n' by {
            if i > 0 {
                assert(r[i] == before_newline(s.drop_first())[i - 1]);
            }
        }
    }
}

proof fn lemma_trim_keeps_lacking(s: Seq<char>, c: char)
    requires
        lacks_char(s, c),
    ensures
        lacks_char(trim_start_seq(s), c),
        lacks_char(trim_end_seq(s), c),
    decreases s.len(),
{
    if s.len() > 0 {
        assert forall|i: int| 0 <= i < s.drop_first().len() implies #[trigger] s.drop_first()[i] != c by {
            assert(s.drop_first()[i] == s[i + 1]);
        }
        assert forall|i: int| 0 <= i < s.drop_last().len() implies #[trigger] s.drop_last()[i] != c by {
            assert(s.drop_last()[i] == s[i]);
        }
        lemma_trim_keeps_lacking(s.drop_first(), c);
        lemma_trim_keeps_lacking(s.drop_last(), c);
    }
}

proof fn lemma_removal_keeps_lacking(s: Seq<char>, pat: Seq<char>, c: char)
    requires
        lacks_char(s, c),
    ensures
        lacks_char(replace_seq(s, pat, Seq::empty()), c),
    decreases s.len(),
{
    if s.len() > 0 && pat.len() > 0 {
        if starts_with_seq(s, pat) {
            let t = s.skip(pat.len() as int);
            assert forall|i: int| 0 <= i < t.len() implies #[trigger] t[i] != c by {
                assert(t[i] == s[i + pat.len()]);
            }
            lemma_removal_keeps_lacking(t, pat, c);
            assert(Seq::<char>::empty() + replace_seq(t, pat, Seq::empty()) =~= replace_seq(
                t,
                pat,
                Seq::empty(),
            ));
        } else {
            let t = s.skip(1);
            assert forall|i: int| 0 <= i < t.len() implies #[trigger] t[i] != c by {
                assert(t[i] == s[i + 1]);
            }
            lemma_removal_keeps_lacking(t, pat, c);
            let r = replace_seq(s, pat, Seq::empty());
            assert forall|i: int| 0 <= i < r.len() implies #[trigger] r[i] != c by {
                if i > 0 {
                    assert(r[i] == replace_seq(t, pat, Seq::empty())[i - 1]);
                }
            }
        }
    }
}

proof fn lemma_slashes_removed(s: Seq<char>)
    ensures
        lacks_double_slash(replace_seq(s, seq!['/', '/'], Seq::empty())),
        s.len() > 0 && !starts_with_seq(s, seq!['/', '/']) ==> replace_seq(
            s,
            seq!['/', '/'],
            Seq::empty(),
        ).len() > 0 && replace_seq(s, seq!['/', '/'], Seq::empty())[0] == s[0],
    decreases s.len(),
{
    let pat = seq!['/', '/'];
    if s.len() > 0 {
        if starts_with_seq(s, pat) {
            lemma_slashes_removed(s.skip(2));
            assert(Seq::<char>::empty() + replace_seq(s.skip(2), pat, Seq::empty()) =~= replace_seq(
                s.skip(2),
                pat,
                Seq::empty(),
            ));
        } else {
            let t = s.skip(1);
            lemma_slashes_removed(t);
            let rt = replace_seq(t, pat, Seq::empty());
            let r = replace_seq(s, pat, Seq::empty());
            assert(r == seq![s[0]] + rt);
            if s[0] == '/' && t.len() > 0 {
                assert(t[0] == s[1]);
                if s[1] == '/' {
                    assert(s.subrange(0, 2) =~= pat);
                }
                assert(!starts_with_seq(t, pat));
            }
            assert forall|i: int| 0 <= i < r.len() - 1 implies !(#[trigger] r[i] == '/' && r[i + 1]
                == '/') by {
                if i > 0 {
                    assert(r[i] == rt[i - 1] && r[i + 1] == rt[i]);
                } else {
                    assert(r[1] == rt[0]);
                }
            }
        }
    }
}

proof fn lemma_before_newline_of_line(p: Seq<char>, rest: Seq<char>)
    requires
        lacks_char(p, '\n'),
    ensures
        before_newline(p + seq!['\n'] + rest) == p,
        before_newline(p) == p,
    decreases p.len(),
{
    if p.len() == 0 {
        assert(p + seq!['\n'] + rest =~= seq!['\n'] + rest);
    } else {
        let q = p.drop_first();
        assert forall|i: int| 0 <= i < q.len() implies #[trigger] q[i] != '\n' by {
            assert(q[i] == p[i + 1]);
        }
        lemma_before_newline_of_line(q, rest);
        assert((p + seq!['\n'] + rest).drop_first() =~= q + seq!['\n'] + rest);
        assert(p.drop_first() =~= q);
        assert(seq![p[0]] + q =~= p);
    }
}

proof fn lemma_no_slash_no_removal(t: Seq<char>)
    requires
        lacks_char(t, '/'),
    ensures
        replace_seq(t, seq!['/', '/'], Seq::empty()) == t,
    decreases t.len(),
{
    if t.len() > 0 {
        assert(!starts_with_seq(t, seq!['/', '/'])) by {
            if t.len() >= 2 {
                assert(t.subrange(0, 2)[0] == t[0]);
            }
        }
        let u = t.skip(1);
        assert forall|i: int| 0 <= i < u.len() implies #[trigger] u[i] != '/' by {
            assert(u[i] == t[i + 1]);
        }
        lemma_no_slash_no_removal(u);
        assert(seq![t[0]] + u =~= t);
    }
}

/// A script's name keeps the text of its first line as written, its letters'
/// case included: where the first line is `//` and then a text with no `/` that
/// does not end in whitespace, the name is that text (the name of
/// "// Create User" is " Create User"), whatever lines follow.
pub proof fn law_script_name_keeps_text(text: Seq<char>, rest: Seq<char>)
    requires
        lacks_char(text, '/'),
        lacks_char(text, '\n'),
        text.len() == 0 || !is_ws(text.last()),
    ensures
        script_name_of(seq!['/', '/'] + text) == text,
        script_name_of(seq!['/', '/'] + text + seq!['\n'] + rest) == text,
{
    reveal_strlit("//");
    assert("//"@ =~= seq!['/', '/']);
    let line = seq!['/', '/'] + text;
    assert(lacks_char(line, '\n')) by {
        assert forall|i: int| 0 <= i < line.len() implies #[trigger] line[i] != '\n' by {
            if i >= 2 {
                assert(line[i] == text[i - 2]);
            }
        }
    }
    lemma_before_newline_of_line(line, rest);
    assert(line + seq!['\n'] + rest =~= seq!['/', '/'] + text + seq!['\n'] + rest);
    assert(!is_ws(line[0]));
    assert(trim_start_seq(line) == line);
    assert(line.last() == if text.len() == 0 {
        '/'
    } else {
        text.last()
    });
    assert(!is_ws(line.last()));
    assert(trim_end_seq(line) == line);
    assert(starts_with_seq(line, seq!['/', '/'])) by {
        assert(line.subrange(0, 2) =~= seq!['/', '/']);
    }
    assert(line.skip(2) =~= text);
    lemma_no_slash_no_removal(text);
    assert(Seq::<char>::empty() + text =~= text);
}

/// A first line with no `/` in it is, trimmed, the script's name as it stands.
pub proof fn law_script_name_without_slashes(content: Seq<char>)
    requires
        lacks_char(trim_seq(before_newline(content)), '/'),
    ensures
        script_name_of(content) == trim_seq(before_newline(content)),
{
    reveal_strlit("//");
    assert("//"@ =~= seq!['/', '/']);
    lemma_no_slash_no_removal(trim_seq(before_newline(content)));
}

/// A script's name is a single line with no `//` in it: the name is taken from
/// the first line, and removing each `//` never brings two slashes together.
pub proof fn law_script_names_single_line(content: Seq<char>)
    ensures
        lacks_char(script_name_of(content), '\n'),
        lacks_double_slash(script_name_of(content)),
{
    reveal_strlit("//");
    assert("//"@ =~= seq!['/', '/']);
    let line = before_newline(content);
    lemma_before_newline_single_line(content);
    lemma_trim_keeps_lacking(line, '\n');
    lemma_trim_keeps_lacking(trim_start_seq(line), '\n');
    lemma_removal_keeps_lacking(trim_seq(line), "//"@, '\n');
    lemma_slashes_removed(trim_seq(line));
}

/// The name of a script: its first line, trimmed, with every `//` taken out, so
/// that a leading `// title` comment names it.
pub fn script_name(script_file: &str) -> (r: String)
    ensures
        r@ == script_name_of(script_file@),
{
    let line = first_line(script_file);
    let trimmed = trim(line.as_str());
    proof {
        reveal_strlit("//");
        reveal_strlit("");
        assert(""@ =~= Seq::<char>::empty());
    }
    replace(trimmed.as_str(), "//", "")
}

/// The mathematical content of a recorded script.
pub struct ScriptModel {
    pub name: Seq<char>,
    pub content: Seq<char>,
    pub result: Seq<char>,
    pub script_type: ScriptLanguage,
}

/// A script that was run, with its result.
#[derive(Debug)]
pub struct Script {
    name: String,
    content: String,
    result: String,
    script_type: ScriptLanguage,
}

impl View for Script {
    type V = ScriptModel;

    closed spec fn view(&self) -> ScriptModel {
        ScriptModel {
            name: self.name@,
            content: self.content@,
            result: self.result@,
            script_type: self.script_type,
        }
    }
}

/// The JSON record of a script, field by field in declaration order, compact.
pub open spec fn script_json(s: ScriptModel) -> Seq<char> {
    "{\"name\":"@ + json_string(s.name) + ",\"content\":"@ + json_string(s.content)
        + ",\"result\":"@ + json_string(s.result) + ",\"script_type\":"@ + json_string(
        s.script_type.variant_name(),
    ) + "}"@
}

impl Script {
    /// A script record; its name is taken from the content.
    pub fn new(content: String, result: String, script_type: ScriptLanguage) -> (r: Self)
        ensures
            r@.name == script_name_of(content@),
            r@.content == content@,
            r@.result == result@,
            r@.script_type == script_type,
    {
        let name = script_name(content.as_str());
        Script { name, content, result, script_type }
    }

    /// A script record with every field given, as a stored record reads back.
    pub fn from_parts(name: String, content: String, result: String, script_type: ScriptLanguage) -> (r: Self)
        ensures
            r@ == (ScriptModel { name: name@, content: content@, result: result@, script_type }),
    {
        Script { name, content, result, script_type }
    }

    pub fn name(&self) -> (r: &str)
        ensures
            r@ == self@.name,
    {
        self.name.as_str()
    }

    pub fn content(&self) -> (r: &str)
        ensures
            r@ == self@.content,
    {
        self.content.as_str()
    }

    pub fn result(&self) -> (r: &str)
        ensures
            r@ == self@.result,
    {
        self.result.as_str()
    }

    pub fn script_type(&self) -> (r: &ScriptLanguage)
        ensures
            *r == self@.script_type,
    {
        &self.script_type
    }

    /// The JSON record of the script, as serde_json writes the struct.
    pub fn as_json(&self) -> (r: String)
        ensures
            r@ == script_json(self@),
    {
        let mut out: Vec<char> = Vec::new();
        push_chars(&mut out, "{\"name\":");
        push_json_string(&mut out, self.name.as_str());
        push_chars(&mut out, ",\"content\":");
        push_json_string(&mut out, self.content.as_str());
        push_chars(&mut out, ",\"result\":");
        push_json_string(&mut out, self.result.as_str());
        push_chars(&mut out, ",\"script_type\":");
        push_json_string(&mut out, self.script_type.variant_str());
        push_chars(&mut out, "}");
        string_of(&out)
    }
}

/// How a script request is answered once the script has run: a result is recorded
/// as a script (named after its first line) and answered with status 200; a failure
/// is answered with its status and message, and nothing is recorded.
pub fn finish_run(
    store: &mut KeyValueStore,
    language: ScriptLanguage,
    content: String,
    outcome: Result<String, RuntimeError>,
) -> (r: (u16, String))
    requires
        old(store).wf(),
    ensures
        final(store).wf(),
        match outcome {
            Ok(result) => {
                &&& r.0 == 200
                &&& r.1 == result
                &&& final(store)@ == kv_insert(
                    old(store)@,
                    SCRIPT_CONTEXT@,
                    script_name_of(content@),
                    script_json(
                        ScriptModel {
                            name: script_name_of(content@),
                            content: content@,
                            result: result@,
                            script_type: language,
                        },
                    ),
                )
            },
            Err(RuntimeError::UserError(m)) => r == (400u16, m) && final(store)@ == old(store)@,
            Err(RuntimeError::InternalError(m)) => r == (500u16, m) && final(store)@ == old(store)@,
        },
{
    match outcome {
        Ok(result) => {
            let script = Script::new(content, result.clone(), language);
            let _ = store.insert_script(&script);
            (200, result)
        },
        Err(error) => error.into_response(),
    }
}

} // verus!
