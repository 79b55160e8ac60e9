use vstd::prelude::*;
use vstd::string::StringExecFns;

verus! {

/// The character of a decimal digit.
pub open spec fn digit_char(d: nat) -> char
    recommends
        d < 10,
{
    ((d + 48) as u8) as char
}

/// The decimal digits of `n`, most significant first, with no leading zeros.
pub open spec fn decimal(n: nat) -> Seq<char>
    decreases n,
{
    if n < 10 {
        seq![digit_char(n)]
    } else {
        decimal(n / 10).push(digit_char(n % 10))
    }
}

/// The text shown for a score of `n`: "Score: " followed by `n` in decimal.
pub open spec fn score_text(n: nat) -> Seq<char> {
    seq!['S', 'c', 'o', 'r', 'e', ':', ' '] + decimal(n)
}

/// The text of a single decimal digit.
fn digit_str(d: u32) -> (r: &'static str)
    requires
        d < 10,
    ensures
        r@ == seq![digit_char(d as nat)],
{
    proof {
        reveal_strlit("0");
        reveal_strlit("1");
        reveal_strlit("2");
        reveal_strlit("3");
        reveal_strlit("4");
        reveal_strlit("5");
        reveal_strlit("6");
        reveal_strlit("7");
        reveal_strlit("8");
        reveal_strlit("9");
    }
    if d == 0 {
        "0"
    } else if d == 1 {
        "1"
    } else if d == 2 {
        "2"
    } else if d == 3 {
        "3"
    } else if d == 4 {
        "4"
    } else if d == 5 {
        "5"
    } else if d == 6 {
        "6"
    } else if d == 7 {
        "7"
    } else if d == 8 {
        "8"
    } else {
        "9"
    }
}

/// Appends the decimal digits of `n` to `s`.
pub fn append_decimal(s: &mut String, n: u32)
    ensures
        final(s)@ == old(s)@ + decimal(n as nat),
    decreases n,
{
    if n >= 10 {
        append_decimal(s, n / 10);
    }
    s.append(digit_str(n % 10));
    proof {
        if n >= 10 {
            assert(old(s)@ + decimal(n as nat) =~= old(s)@ + decimal((n / 10) as nat) + seq![
                digit_char((n % 10) as nat),
            ]);
        }
    }
}

/// The text shown for a score of `n`.
pub fn format_score(n: u32) -> (r: String)
    ensures
        r@ == score_text(n as nat),
{
    let mut s = String::from_str("Score: ");
    proof {
        reveal_strlit("Score: ");
    }
    append_decimal(&mut s, n);
    s
}

/// The score counter and the text that displays it.
pub struct Score {
    pub score: u32,
    pub text: String,
}

impl Score {
    /// The text always reads the current counter.
    pub open spec fn wf(&self) -> bool {
        self.text@ == score_text(self.score as nat)
    }

    /// A score of zero, shown as "Score: 0".
    pub fn default() -> (r: Score)
        ensures
            r.wf(),
            r.score == 0,
    {
        Score { score: 0, text: format_score(0) }
    }

    /// Counts one point if a score event was queued since the last call, however
    /// many were, and rewrites the text; with no event queued, changes nothing.
    pub fn score_increase(&mut self, event_queued: bool)
        requires
            event_queued ==> old(self).score < u32::MAX,
        ensures
            event_queued ==> final(self).score == old(self).score + 1,
            event_queued ==> final(self).wf(),
            !event_queued ==> final(self).score == old(self).score,
            !event_queued ==> final(self).text@ == old(self).text@,
            old(self).wf() ==> final(self).wf(),
    {
        if event_queued {
            self.score = self.score + 1;
            self.text = format_score(self.score);
        }
    }
}

} // verus!
