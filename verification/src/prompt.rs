//! The prompt builder: assembles the instruction payload sent to the
//! inference service.
//!
//! A request carries exactly two entries: a system entry with the fixed
//! instructions and a user entry with the diff. When the suggestion is for
//! one file, the user entry opens with a directive binding the commit
//! scope to that file's name, so the model cannot invent a scope from a
//! path fragment in the diff header.

use vstd::prelude::*;
use vstd::string::is_ascii;
use vstd::string::StrSliceExecFns;
use vstd::string::StringSliceAdditionalSpecFns;

verus! {

/// One chat entry handed to the inference service.
pub struct Message {
    /// `system` or `user`.
    pub role: String,
    /// Payload of the entry. Raw bytes, as a truncated diff is a byte
    /// prefix of the original text.
    pub content: Vec<u8>,
}

/// The label that introduces the diff in the user entry.
pub open spec fn diff_label() -> Seq<u8> {
    "Diff to analyze:\n".spec_bytes()
}

/// Opening words of the scope directive.
pub open spec fn scope_opening() -> Seq<u8> {
    "File being committed: ".spec_bytes()
}

/// The directive that fixes the commit scope to one name, overriding
/// anything inferable from the diff header.
pub open spec fn scope_directive(name: Seq<u8>) -> Seq<u8> {
    scope_opening() + name + "\nThe scope in your commit message MUST be exactly \"".spec_bytes()
        + name + "\" - do not use the path or extension from the diff header.\n\n".spec_bytes()
}

/// The whole user entry: the scope directive where a scope is given, and
/// the labeled diff.
pub open spec fn user_content(scope: Option<Seq<u8>>, diff: Seq<u8>) -> Seq<u8> {
    match scope {
        Option::Some(name) => scope_directive(name) + diff_label() + diff,
        Option::None => diff_label() + diff,
    }
}

/// Builds the user entry for a diff, scoped to one file name when one is
/// given.
pub fn build_user_content(scope: Option<&str>, diff: &[u8]) -> (out: Vec<u8>)
    ensures
        out@ == user_content(
            match scope {
                Option::Some(name) => Option::Some(name.spec_bytes()),
                Option::None => Option::None,
            },
            diff@,
        ),
{
    let mut out: Vec<u8> = Vec::new();
    match scope {
        Option::Some(name) => {
            out.extend_from_slice("File being committed: ".as_bytes());
            out.extend_from_slice(name.as_bytes());
            out.extend_from_slice(
                "\nThe scope in your commit message MUST be exactly \"".as_bytes(),
            );
            out.extend_from_slice(name.as_bytes());
            out.extend_from_slice(
                "\" - do not use the path or extension from the diff header.\n\n".as_bytes(),
            );
            proof {
                assert(out@ =~= scope_directive(name.spec_bytes()));
            }
        },
        Option::None => {},
    }
    out.extend_from_slice("Diff to analyze:\n".as_bytes());
    out.extend_from_slice(diff);
    proof {
        match scope {
            Option::Some(name) => {
                assert(out@ =~= scope_directive(name.spec_bytes()) + diff_label() + diff@);
            },
            Option::None => {
                assert(out@ =~= diff_label() + diff@);
            },
        }
    }
    out
}

/// Builds the two-entry message sequence: fixed instructions under the
/// system role, the (possibly scoped) diff under the user role.
pub fn build_messages(instructions: &str, diff: &[u8], scope: Option<&str>) -> (msgs: Vec<Message>)
    ensures
        msgs@.len() == 2,
        msgs@[0].role@ == "system"@,
        msgs@[0].content@ == instructions.spec_bytes(),
        msgs@[1].role@ == "user"@,
        msgs@[1].content@ == user_content(
            match scope {
                Option::Some(name) => Option::Some(name.spec_bytes()),
                Option::None => Option::None,
            },
            diff@,
        ),
{
    let mut msgs: Vec<Message> = Vec::new();
    msgs.push(Message { role: "system".to_owned(), content: instructions.as_bytes_vec() });
    msgs.push(Message { role: "user".to_owned(), content: build_user_content(scope, diff) });
    msgs
}

/// Whether `p` is a prefix of `s`.
pub open spec fn starts_with(s: Seq<u8>, p: Seq<u8>) -> bool {
    p.len() <= s.len() && s.take(p.len() as int) == p
}

/// A scoped user entry always opens with the scope directive for exactly
/// the given name; an unscoped user entry never opens with one, whatever
/// the diff holds.
pub proof fn lemma_scope_directive_presence(name: Seq<u8>, diff: Seq<u8>)
    ensures
        starts_with(user_content(Option::Some(name), diff), scope_opening() + name),
        !starts_with(user_content(Option::None, diff), scope_opening()),
{
    broadcast use vstd::string::is_ascii_spec_bytes;

    let with_scope = user_content(Option::Some(name), diff);
    let p = scope_opening() + name;
    assert(with_scope.take(p.len() as int) =~= p);
    reveal_strlit("File being committed: ");
    reveal_strlit("Diff to analyze:\n");
    let opening = "File being committed: ";
    let label = "Diff to analyze:\n";
    assert(is_ascii(opening)) by {
        assert(forall|i: int| 0 <= i < opening@.len() ==> '\0' <= #[trigger] opening@[i]
            <= '\u{7f}');
    }
    assert(is_ascii(label)) by {
        assert(forall|i: int| 0 <= i < label@.len() ==> '\0' <= #[trigger] label@[i] <= '\u{7f}');
    }
    assert(scope_opening()[0] == 'F' as u8);
    assert(diff_label()[0] == 'D' as u8);
    let without = user_content(Option::None, diff);
    if starts_with(without, scope_opening()) {
        assert(without.take(scope_opening().len() as int)[0] == without[0]);
        assert(without[0] == diff_label()[0]);
        assert(false);
    }
}

} // verus!
