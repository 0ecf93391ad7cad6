//! Reading a yes/no answer to a confirmation prompt.

use vstd::prelude::*;

use crate::error::CommandError;
use crate::text::push_char;

verus! {

/// The lower-case form of a text, as `str::to_lowercase` gives it (Unicode lower-casing).
pub uninterp spec fn lowercase(s: Seq<char>) -> Seq<char>;

/// `str::to_lowercase`.
#[verifier::external_body]
fn to_lowercase(s: &str) -> (r: String)
    ensures
        r@ == lowercase(s@),
{
    s.to_lowercase()
}

/// `s` without its line feeds and carriage returns.
pub open spec fn without_line_breaks(s: Seq<char>) -> Seq<char>
    decreases s.len(),
{
    if s.len() == 0 {
        s
    } else if s.last() == '\n' || s.last() == '\r' {
        without_line_breaks(s.drop_last())
    } else {
        without_line_breaks(s.drop_last()).push(s.last())
    }
}

/// The answer as it is compared: line breaks removed, then lower-cased.
pub open spec fn normalized_answer(s: Seq<char>) -> Seq<char> {
    lowercase(without_line_breaks(s))
}

/// What an answer means: `Ok(true)` for `y` or `yes`, `Ok(false)` for `n` or `no`, an
/// error holding the normalized answer otherwise.
pub open spec fn answer_meaning(s: Seq<char>) -> Result<bool, Seq<char>> {
    let a = normalized_answer(s);
    if a == seq!['y'] || a == seq!['y', 'e', 's'] {
        Ok(true)
    } else if a == seq!['n'] || a == seq!['n', 'o'] {
        Ok(false)
    } else {
        Err(a)
    }
}

/// Whether two texts are equal.
pub fn same_text(a: &str, b: &str) -> (r: bool)
    ensures
        r == (a@ == b@),
{
    let n = a.unicode_len();
    if n != b.unicode_len() {
        return false;
    }
    let mut i: usize = 0;
    while i < n
        invariant
            n == a@.len(),
            n == b@.len(),
            i <= n,
            a@.take(i as int) == b@.take(i as int),
        decreases n - i,
    {
        if a.get_char(i) != b.get_char(i) {
            assert(a@[i as int] != b@[i as int]);
            return false;
        }
        assert(a@.take(i + 1) =~= a@.take(i as int).push(a@[i as int]));
        assert(b@.take(i + 1) =~= b@.take(i as int).push(b@[i as int]));
        i = i + 1;
    }
    assert(a@.take(n as int) =~= a@);
    assert(b@.take(n as int) =~= b@);
    true
}

/// The text without its line feeds and carriage returns.
pub fn strip_line_breaks(s: &str) -> (r: String)
    ensures
        r@ == without_line_breaks(s@),
{
    let n = s.unicode_len();
    let mut r = String::new();
    let mut i: usize = 0;
    while i < n
        invariant
            n == s@.len(),
            i <= n,
            r@ == without_line_breaks(s@.take(i as int)),
        decreases n - i,
    {
        let c = s.get_char(i);
        assert(s@.take(i + 1).drop_last() =~= s@.take(i as int));
        if c != '\n' && c != '\r' {
            push_char(&mut r, c);
        }
        i = i + 1;
    }
    assert(s@.take(n as int) =~= s@);
    r
}

/// Interprets the answer to a confirmation prompt: line breaks are ignored and case does
/// not matter; `y` or `yes` confirms, `n` or `no` declines, anything else is refused.
pub fn parse_answer(answer: &str) -> (r: Result<bool, CommandError>)
    ensures
        match (r, answer_meaning(answer@)) {
            (Ok(b), Ok(m)) => b == m,
            (Err(CommandError::InvalidAnswer(a)), Err(m)) => a@ == m,
            _ => false,
        },
{
    let stripped = strip_line_breaks(answer);
    let a = to_lowercase(stripped.as_str());
    proof {
        reveal_strlit("y");
        reveal_strlit("yes");
        reveal_strlit("n");
        reveal_strlit("no");
        assert("y"@ =~= seq!['y']);
        assert("yes"@ =~= seq!['y', 'e', 's']);
        assert("n"@ =~= seq!['n']);
        assert("no"@ =~= seq!['n', 'o']);
    }
    if same_text(a.as_str(), "y") || same_text(a.as_str(), "yes") {
        Ok(true)
    } else if same_text(a.as_str(), "n") || same_text(a.as_str(), "no") {
        Ok(false)
    } else {
        Err(CommandError::InvalidAnswer(a))
    }
}

/// Line endings do not change an answer: typing `yes` on a terminal that sends CR LF
/// means the same as typing it on one that sends LF.
pub proof fn lemma_line_endings_ignored(s: Seq<char>)
    ensures
        answer_meaning(s + seq!['\r', '\n']) == answer_meaning(s),
        answer_meaning(s + seq!['\n']) == answer_meaning(s),
{
    let cr = s + seq!['\r'];
    let lf = s + seq!['\n'];
    let crlf = s + seq!['\r', '\n'];
    assert(crlf.drop_last() =~= cr);
    assert(cr.drop_last() =~= s);
    assert(lf.drop_last() =~= s);
    assert(crlf.last() == '\n');
    assert(cr.last() == '\r');
    assert(lf.last() == '\n');
    assert(without_line_breaks(cr) == without_line_breaks(s));
    assert(without_line_breaks(crlf) == without_line_breaks(cr));
    assert(without_line_breaks(lf) == without_line_breaks(s));
}


/// Removing line breaks removes every line feed and carriage return and keeps every other
/// character, in order: it works piece by piece, leaves no line break behind, and leaves a
/// text without line breaks as it is.
pub proof fn lemma_without_line_breaks(a: Seq<char>, b: Seq<char>)
    ensures
        without_line_breaks(a + b) == without_line_breaks(a) + without_line_breaks(b),
        forall|i: int|
            0 <= i < without_line_breaks(a).len() ==> #[trigger] without_line_breaks(a)[i] != '\n'
                && without_line_breaks(a)[i] != '\r',
        (forall|i: int| 0 <= i < a.len() ==> #[trigger] a[i] != '\n' && a[i] != '\r')
            ==> without_line_breaks(a) == a,
    decreases b.len(),
{
    lemma_no_breaks_left(a);
    lemma_plain_text_kept(a);
    if b.len() == 0 {
        assert(a + b =~= a);
        assert(without_line_breaks(b) =~= Seq::<char>::empty());
        assert(without_line_breaks(a) + without_line_breaks(b) =~= without_line_breaks(a));
    } else {
        lemma_without_line_breaks(a, b.drop_last());
        assert((a + b).drop_last() =~= a + b.drop_last());
        assert((a + b).last() == b.last());
        if b.last() == '\n' || b.last() == '\r' {
        } else {
            assert(without_line_breaks(a) + without_line_breaks(b) =~= (without_line_breaks(a)
                + without_line_breaks(b.drop_last())).push(b.last()));
        }
    }
}

proof fn lemma_no_breaks_left(a: Seq<char>)
    ensures
        forall|i: int|
            0 <= i < without_line_breaks(a).len() ==> #[trigger] without_line_breaks(a)[i] != '\n'
                && without_line_breaks(a)[i] != '\r',
    decreases a.len(),
{
    if a.len() > 0 {
        lemma_no_breaks_left(a.drop_last());
        let w = without_line_breaks(a.drop_last());
        if !(a.last() == '\n' || a.last() == '\r') {
            assert forall|i: int|
                0 <= i < without_line_breaks(a).len() implies #[trigger] without_line_breaks(a)[i]
                != '\n' && without_line_breaks(a)[i] != '\r' by {
                if i < w.len() {
                    assert(without_line_breaks(a)[i] == w[i]);
                }
            }
        }
    }
}

proof fn lemma_plain_text_kept(a: Seq<char>)
    ensures
        (forall|i: int| 0 <= i < a.len() ==> #[trigger] a[i] != '\n' && a[i] != '\r')
            ==> without_line_breaks(a) == a,
    decreases a.len(),
{
    if a.len() > 0 {
        lemma_plain_text_kept(a.drop_last());
        if forall|i: int| 0 <= i < a.len() ==> #[trigger] a[i] != '\n' && a[i] != '\r' {
            assert(forall|i: int|
                0 <= i < a.drop_last().len() ==> #[trigger] a.drop_last()[i] == a[i]);
            assert(a[a.len() - 1] != '\n' && a[a.len() - 1] != '\r');
            assert(a.drop_last().push(a.last()) =~= a);
        }
    }
}

} // verus!
