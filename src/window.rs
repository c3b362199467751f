//! Reading the focused window's class out of a compositor IPC reply, which
//! is either a JSON object or `Key: value` lines.

use vstd::prelude::*;
use vstd::string::StrSliceExecFns;
use crate::text::{trim_str, trimmed, to_ascii_lowercase, ascii_lower, same_text};

verus! {

/// What reading `text` as JSON gives for the string field `key`: none when
/// `text` is not JSON; otherwise the field's text when the document is an
/// object whose `key` holds a string, and none inside when it does not.
pub uninterp spec fn json_string_field(text: Seq<char>, key: Seq<char>) -> Option<Option<Seq<char>>>;

/// Relies on `serde_json::from_str` into a `serde_json::Value`, then
/// `Value::get` and `Value::as_str` on the result.
#[verifier::external_body]
fn read_json_string_field(text: &str, key: &str) -> (r: Option<Option<String>>)
    ensures
        r.deep_view() == json_string_field(text@, key@),
{
    serde_json::from_str::<serde_json::Value>(text)
        .ok()
        .map(|v| v.get(key).and_then(|f| f.as_str()).map(|s| s.to_string()))
}

/// The reply holds neither JSON nor a `class:` line.
#[derive(Debug, Clone, Copy, PartialEq, Eq, Structural)]
pub enum WindowClassError {
    NoClassEntry,
}

/// Position of the first `:` in `s`.
pub open spec fn first_colon(s: Seq<char>) -> Option<int>
    decreases s.len(),
{
    if s.len() == 0 {
        None
    } else {
        match first_colon(s.drop_last()) {
            Some(i) => Some(i),
            None => if s.last() == ':' { Some(s.len() - 1) } else { None },
        }
    }
}

/// The value of a `class: value` line (key in any ASCII case, spaces
/// around key and value ignored).
pub open spec fn class_value(line: Seq<char>) -> Option<Seq<char>> {
    let t = trimmed(line);
    match first_colon(t) {
        Some(i) => if trimmed(t.subrange(0, i)).map_values(|c: char| ascii_lower(c)) == "class"@ {
            Some(trimmed(t.subrange(i + 1, t.len() as int)))
        } else {
            None
        },
        None => None,
    }
}

/// Finished lines and the line being read, splitting `s` at newlines.
pub open spec fn line_scan(s: Seq<char>) -> (Seq<Seq<char>>, Seq<char>)
    decreases s.len(),
{
    if s.len() == 0 {
        (seq![], seq![])
    } else {
        let (done, cur) = line_scan(s.drop_last());
        if s.last() == '\n' {
            (done.push(cur), seq![])
        } else {
            (done, cur.push(s.last()))
        }
    }
}

/// The value of the first `class:` line among `lines`.
pub open spec fn first_class(lines: Seq<Seq<char>>) -> Option<Seq<char>>
    decreases lines.len(),
{
    if lines.len() == 0 {
        None
    } else {
        match first_class(lines.drop_last()) {
            Some(v) => Some(v),
            None => class_value(lines.last()),
        }
    }
}

pub open spec fn class_from_lines(s: Seq<char>) -> Option<Seq<char>> {
    first_class(line_scan(s).0.push(line_scan(s).1))
}

fn class_in_line(line: &str) -> (r: Option<String>)
    ensures
        r.deep_view() == class_value(line@),
{
    let t = trim_str(line);
    let n = t.unicode_len();
    let mut i: usize = 0;
    while i < n
        invariant
            n == t@.len(),
            t@ == trimmed(line@),
            i <= n,
            first_colon(t@.take(i as int)) is None,
        decreases n - i,
    {
        assert(t@.take(i + 1).drop_last() =~= t@.take(i as int));
        if t.get_char(i) == ':' {
            proof {
                lemma_first_colon_prefix(t@, i as int);
            }
            let key = to_ascii_lowercase(trim_str(t.substring_char(0, i)));
            if same_text(key.as_str(), "class") {
                return Some(trim_str(t.substring_char(i + 1, n)).to_owned());
            } else {
                return None;
            }
        }
        i = i + 1;
    }
    proof {
        assert(t@.take(n as int) =~= t@);
    }
    None
}

/// When the first `:` of `s` is at `i`, it is the first `:` of any longer
/// sequence that starts like `s`.
proof fn lemma_first_colon_prefix(s: Seq<char>, i: int)
    requires
        0 <= i < s.len(),
        first_colon(s.take(i)) is None,
        s[i] == ':',
    ensures
        first_colon(s) == Some(i),
    decreases s.len(),
{
    if s.len() - 1 == i {
        assert(s.drop_last() =~= s.take(i));
    } else {
        let d = s.drop_last();
        assert(d.take(i) =~= s.take(i));
        lemma_first_colon_prefix(d, i);
    }
}

/// The window class in a reply: the `class` field when the reply is JSON,
/// otherwise the first `class:` line; none for an empty reply.
pub fn extract_window_class_from_response(response: &str) -> (r: Result<Option<String>, WindowClassError>)
    ensures
        response@.len() == 0 ==> r matches Ok(None),
        response@.len() > 0 ==> match json_string_field(response@, "class"@) {
            Some(field) => r matches Ok(o) && o.deep_view() == field,
            None => match class_from_lines(response@) {
                Some(v) => r matches Ok(Some(s)) && s@ == v,
                None => r == Err::<Option<String>, WindowClassError>(WindowClassError::NoClassEntry),
            },
        },
{
    let n = response.unicode_len();
    if n == 0 {
        return Ok(None);
    }
    match read_json_string_field(response, "class") {
        Some(field) => {
            return Ok(field);
        },
        None => {},
    }
    assert(json_string_field(response@, "class"@) is None);
    let mut found: Option<String> = None;
    let mut start: usize = 0;
    let mut i: usize = 0;
    while i < n
        invariant
            n == response@.len(),
            n > 0,
            json_string_field(response@, "class"@) is None,
            start <= i <= n,
            line_scan(response@.take(i as int)).1 == response@.subrange(start as int, i as int),
            found.deep_view() == first_class(line_scan(response@.take(i as int)).0),
        decreases n - i,
    {
        let c = response.get_char(i);
        assert(response@.take(i + 1).drop_last() =~= response@.take(i as int));
        if c == '\n' {
            let ghost done = line_scan(response@.take(i as int)).0;
            assert(done.push(response@.subrange(start as int, i as int)).drop_last() =~= done);
            if found.is_none() {
                found = class_in_line(response.substring_char(start, i));
            }
            start = i + 1;
        } else {
            assert(response@.subrange(start as int, i + 1) =~= response@.subrange(
                start as int,
                i as int,
            ).push(c));
        }
        i = i + 1;
    }
    assert(response@.take(n as int) =~= response@);
    let ghost lines = line_scan(response@).0.push(line_scan(response@).1);
    assert(lines.drop_last() =~= line_scan(response@).0);
    match found {
        Some(v) => Ok(Some(v)),
        None => match class_in_line(response.substring_char(start, n)) {
            Some(v) => Ok(Some(v)),
            None => Err(WindowClassError::NoClassEntry),
        },
    }
}

} // verus!
