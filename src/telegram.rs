//! The Telegram channel.
use vstd::prelude::*;
use crate::scan::{index_of_from, lemma_next_index_bounds, next_index_of};
use crate::text::{chars_of, concat, string_of};

verus! {

/// `s` with each quoted passage `"..."` turned into `<i>...</i>`; a quote
/// with no closing quote after it stays as it is.
pub open spec fn italicized(s: Seq<char>) -> Seq<char>
    decreases s.len(),
{
    if s.len() == 0 {
        s
    } else if s[0] == '"' && 1 <= next_index_of(s, '"', 1) < s.len() {
        let j = next_index_of(s, '"', 1);
        "<i>"@ + s.subrange(1, j) + "</i>"@ + italicized(s.subrange(j + 1, s.len() as int))
    } else {
        seq![s[0]] + italicized(s.drop_first())
    }
}

proof fn lemma_next_index_shift(s: Seq<char>, c: char, i: int, k: int)
    requires
        0 <= i <= k <= s.len(),
    ensures
        next_index_of(s.skip(i), c, k - i) == next_index_of(s, c, k) - i,
    decreases s.len() - k,
{
    if k < s.len() && s[k] != c {
        lemma_next_index_shift(s, c, i, k + 1);
    }
}

/// A chat on Telegram, reached through a bot.
pub struct Telegram {
    pub access_token: String,
    pub chat_id: String,
}

impl Telegram {
    pub fn new(access_token: &str, chat_id: &str) -> (r: Telegram)
        ensures
            r.access_token@ == access_token@,
            r.chat_id@ == chat_id@,
    {
        Telegram { access_token: String::from_str(access_token), chat_id: String::from_str(chat_id) }
    }

    /// The address of the bot method `method` (such as `sendAudio`).
    pub fn method_url(&self, method: &str) -> (r: String)
        ensures
            r@ == "https://api.telegram.org/bot"@ + self.access_token@ + "/"@ + method@,
    {
        let mut u = String::from_str("https://api.telegram.org/bot");
        u.append(self.access_token.as_str());
        u.append("/");
        u.append(method);
        u
    }

    /// A caption with its quoted passages in italics (see `italicized`).
    pub fn prepare(text: &str) -> (r: String)
        ensures
            r@ == italicized(text@),
    {
        let s = chars_of(text);
        let n = s.len();
        let open = chars_of("<i>");
        let close = chars_of("</i>");
        let mut out: Vec<char> = Vec::new();
        let mut i: usize = 0;
        assert(s@.skip(0) =~= s@);
        while i < n
            invariant
                i <= n == s.len(),
                open@ == "<i>"@,
                close@ == "</i>"@,
                out@ + italicized(s@.skip(i as int)) == italicized(s@),
            decreases n - i,
        {
            let ghost t = s@.skip(i as int);
            let ghost before = out@;
            let mut done_quote = false;
            if s[i] == '"' && i + 1 <= n {
                let j = index_of_from(&s, '"', i + 1);
                proof {
                    lemma_next_index_bounds(s@, '"', i + 1);
                    lemma_next_index_shift(s@, '"', i as int, i + 1);
                }
                if j < n {
                    for k in 0..open.len()
                        invariant
                            out@ == before + open@.take(k as int),
                    {
                        out.push(open[k]);
                        assert(out@ =~= before + open@.take(k as int + 1));
                    }
                    let ghost b1 = out@;
                    for k in i + 1..j
                        invariant
                            i + 1 <= j <= n == s.len(),
                            out@ == b1 + s@.subrange(i + 1, k as int),
                    {
                        out.push(s[k]);
                        assert(out@ =~= b1 + s@.subrange(i + 1, k as int + 1));
                    }
                    let ghost b2 = out@;
                    for k in 0..close.len()
                        invariant
                            out@ == b2 + close@.take(k as int),
                    {
                        out.push(close[k]);
                        assert(out@ =~= b2 + close@.take(k as int + 1));
                    }
                    proof {
                        assert(open@.take(open@.len() as int) =~= open@);
                        assert(close@.take(close@.len() as int) =~= close@);
                        let jj = j - i;
                        assert(t.subrange(1, jj) =~= s@.subrange(i + 1, j as int));
                        assert(t.subrange(jj + 1, t.len() as int) =~= s@.skip(j + 1));
                        assert(italicized(t) == "<i>"@ + t.subrange(1, jj) + "</i>"@ + italicized(
                            t.subrange(jj + 1, t.len() as int),
                        ));
                        assert(out@ =~= before + ("<i>"@ + t.subrange(1, jj) + "</i>"@));
                        assert(out@ + italicized(s@.skip(j + 1)) =~= before + italicized(t));
                    }
                    i = j + 1;
                    done_quote = true;
                }
            }
            if !done_quote {
                out.push(s[i]);
                proof {
                    assert(t.drop_first() =~= s@.skip(i + 1));
                    assert(out@ + italicized(s@.skip(i + 1)) =~= before + italicized(t));
                }
                i = i + 1;
            }
        }
        proof {
            assert(s@.skip(n as int) =~= Seq::<char>::empty());
            assert(out@ + Seq::<char>::empty() =~= out@);
        }
        string_of(&out)
    }
}

} // verus!
