use vstd::prelude::*;

use crate::text::{ascii_lower, ascii_lowercase, trim, trim_text};

verus! {

/// The sentence that names the terminal the program was started from.
pub open spec fn terminal_context_text(term_program: Seq<char>, term: Seq<char>) -> Seq<char> {
    "Detected TERM_PROGRAM="@ + term_program + ", TERM="@ + term + "."@
}

/// The explanation shown when system audio capture cannot start.
pub open spec fn permission_message_text(term_program: Seq<char>, term: Seq<char>) -> Seq<char> {
    "failed to start macOS system audio capture. "@ + terminal_context_text(term_program, term)
        + " Grant your launching terminal permission in System Settings > Privacy & Security > Screen & System Audio Recording, then fully quit and reopen that terminal."@
}

/// Whether an answer to "Open System Settings ...? [Y/n]" accepts: after trimming and
/// lowercasing it is empty, `y` or `yes`.
pub open spec fn answer_accepts(answer: Seq<char>) -> bool {
    let normalized = ascii_lower(trim(answer));
    normalized.len() == 0 || normalized == "y"@ || normalized == "yes"@
}

/// Names the terminal (`TERM_PROGRAM` and `TERM`) that launched the program.
pub fn terminal_context(term_program: &str, term: &str) -> (r: String)
    ensures
        r@ == terminal_context_text(term_program@, term@),
{
    let mut text = String::from_str("Detected TERM_PROGRAM=");
    text.append(term_program);
    text.append(", TERM=");
    text.append(term);
    text.append(".");
    text
}

/// Explains that capture failed and how to grant the terminal the audio recording permission.
pub fn capture_permission_message(term_program: &str, term: &str) -> (r: String)
    ensures
        r@ == permission_message_text(term_program@, term@),
{
    let mut text = String::from_str("failed to start macOS system audio capture. ");
    let context = terminal_context(term_program, term);
    text.append(context.as_str());
    text.append(
        " Grant your launching terminal permission in System Settings > Privacy & Security > Screen & System Audio Recording, then fully quit and reopen that terminal.",
    );
    text
}

/// Whether the user's answer to the prompt asks to open the privacy settings.
pub fn permission_answer_accepted(answer: &str) -> (r: bool)
    ensures
        r == answer_accepts(answer@),
{
    let trimmed = trim_text(answer);
    let normalized = ascii_lowercase(trimmed.as_str());
    normalized.unicode_len() == 0 || normalized == String::from_str("y") || normalized
        == String::from_str("yes")
}

/// The verdict on an answer depends only on its trimmed, ASCII-lowercased form: two answers
/// that normalize alike are both accepted or both refused.
pub proof fn law_answer_verdict_depends_on_normal_form(first: Seq<char>, second: Seq<char>)
    requires
        ascii_lower(trim(first)) == ascii_lower(trim(second)),
    ensures
        answer_accepts(first) == answer_accepts(second),
{
}

/// An accepted answer normalizes to nothing, `y` or `yes`; an answer that normalizes to
/// anything else, `n` and `no` among them, is refused.
pub proof fn law_answer_accepted_forms(answer: Seq<char>)
    ensures
        answer_accepts(answer) <==> ({
            let normalized = ascii_lower(trim(answer));
            normalized == Seq::<char>::empty() || normalized == seq!['y'] || normalized == seq![
                'y',
                'e',
                's',
            ]
        }),
        ascii_lower(trim(answer)) == seq!['n'] ==> !answer_accepts(answer),
        ascii_lower(trim(answer)) == seq!['n', 'o'] ==> !answer_accepts(answer),
{
    reveal_strlit("y");
    reveal_strlit("yes");
    assert("y"@ =~= seq!['y']);
    assert("yes"@ =~= seq!['y', 'e', 's']);
    let normalized = ascii_lower(trim(answer));
    if normalized.len() == 0 {
        assert(normalized =~= Seq::<char>::empty());
    }
    if normalized == seq!['n'] {
        assert(normalized[0] != seq!['y'][0]);
        assert(normalized.len() != seq!['y', 'e', 's'].len());
    }
    if normalized == seq!['n', 'o'] {
        assert(normalized.len() != seq!['y'].len());
        assert(normalized.len() != seq!['y', 'e', 's'].len());
    }
}

/// The terminal sentence quotes `TERM_PROGRAM` and then `TERM` verbatim, after their names,
/// and ends with a full stop.
pub proof fn law_terminal_context_quotes_both(term_program: Seq<char>, term: Seq<char>)
    ensures
        ({
            let t = terminal_context_text(term_program, term);
            &&& t.len() == 22int + term_program.len() + 7 + term.len() + 1
            &&& t.take(22) == "Detected TERM_PROGRAM="@
            &&& t.subrange(22, 22int + term_program.len()) == term_program
            &&& t.subrange(22int + term_program.len(), 29int + term_program.len()) == ", TERM="@
            &&& t.subrange(29int + term_program.len(), t.len() - 1) == term
            &&& t.last() == '.'
        }),
{
    reveal_strlit("Detected TERM_PROGRAM=");
    reveal_strlit(", TERM=");
    reveal_strlit(".");
    let t = terminal_context_text(term_program, term);
    assert(t.take(22) =~= "Detected TERM_PROGRAM="@);
    assert(t.subrange(22, 22int + term_program.len()) =~= term_program);
    assert(t.subrange(22int + term_program.len(), 29int + term_program.len()) =~= ", TERM="@);
    assert(t.subrange(29int + term_program.len(), t.len() - 1) =~= term);
}

/// The permission message states the failure, then names the terminal, then explains how
/// to grant the permission.
pub proof fn law_permission_message_embeds_context(term_program: Seq<char>, term: Seq<char>)
    ensures
        ({
            let m = permission_message_text(term_program, term);
            let context = terminal_context_text(term_program, term);
            &&& m.take(44) == "failed to start macOS system audio capture. "@
            &&& m.subrange(44, 44int + context.len()) == context
            &&& m.skip(44int + context.len()) == " Grant your launching terminal permission in System Settings > Privacy & Security > Screen & System Audio Recording, then fully quit and reopen that terminal."@
        }),
{
    reveal_strlit("failed to start macOS system audio capture. ");
    let m = permission_message_text(term_program, term);
    let context = terminal_context_text(term_program, term);
    assert(m.take(44) =~= "failed to start macOS system audio capture. "@);
    assert(m.subrange(44, 44int + context.len()) =~= context);
    assert(m.skip(44int + context.len()) =~= " Grant your launching terminal permission in System Settings > Privacy & Security > Screen & System Audio Recording, then fully quit and reopen that terminal."@);
}

} // verus!
