//! Secret redaction for child-process log lines.
//!
//! A secret token is scrubbed from a line by removing the token itself and
//! its punctuation-joined variants, masking each half of a dotted token, and
//! masking every prefix of a long token from length eight upward so that
//! truncated appearances are hidden as well.  This is defence in depth, not
//! a guarantee: a fragment of the token that is neither a prefix nor a
//! dot-separated half can survive.

use vstd::prelude::*;

use crate::text::chars_of;
use crate::text::contains_seq;
use crate::text::copy_vec;
use crate::text::find_ch;
use crate::text::find_char;
use crate::text::lemma_replace_free;
use crate::text::occurs_at;
use crate::text::replace_chars;
use crate::text::spec_replace;
use crate::text::string_from_chars;
use crate::text::sub_vec;

verus! {

/// The mask written over scrubbed token fragments.
pub open spec fn placeholder() -> Seq<char> {
    seq!['*', '*', '*']
}

/// Builds the placeholder mask.
pub fn placeholder_chars() -> (r: Vec<char>)
    ensures
        r@ == placeholder(),
{
    let mut r: Vec<char> = Vec::new();
    r.push('*');
    r.push('*');
    r.push('*');
    proof {
        assert(r@ =~= placeholder());
    }
    r
}

/// Replaces each prefix of `token`, from length `w` down to length eight,
/// by the placeholder, longest first.
pub open spec fn scrub_from(s: Seq<char>, token: Seq<char>, w: int) -> Seq<char>
    decreases w - 7,
{
    if w < 8 {
        s
    } else {
        scrub_from(spec_replace(s, token.take(w), placeholder()), token, w - 1)
    }
}

/// The scrubbed form of `msg` for one secret `token`.
pub open spec fn spec_sanitize_token(msg: Seq<char>, token: Seq<char>) -> Seq<char> {
    let e = Seq::<char>::empty();
    let r1 = spec_replace(msg, token.push('.'), e);
    let r2 = spec_replace(r1, token.push('-'), e);
    let r3 = spec_replace(r2, token, e);
    let dot = find_ch(token, '.');
    let r4 = if dot >= 0 {
        let first = token.take(dot);
        let second = token.skip(dot + 1);
        let a = if first.len() >= 6 {
            spec_replace(r3, first, placeholder())
        } else {
            r3
        };
        if second.len() >= 6 {
            spec_replace(a, second, placeholder())
        } else {
            a
        }
    } else {
        r3
    };
    if token.len() >= 10 {
        scrub_from(r4, token, token.len() as int)
    } else {
        r4
    }
}

/// The scrubbed form of `msg` after applying every non-empty secret in
/// order.
pub open spec fn spec_sanitize_log(msg: Seq<char>, secrets: Seq<Seq<char>>) -> Seq<char>
    decreases secrets.len(),
{
    if secrets.len() == 0 {
        msg
    } else {
        let next = if secrets[0].len() == 0 {
            msg
        } else {
            spec_sanitize_token(msg, secrets[0])
        };
        spec_sanitize_log(next, secrets.drop_first())
    }
}

/// Scrubs one secret token from a line of characters.
pub fn sanitize_token_chars(msg: &Vec<char>, token: &Vec<char>) -> (r: Vec<char>)
    ensures
        r@ == spec_sanitize_token(msg@, token@),
{
    let empty: Vec<char> = Vec::new();
    let ph = placeholder_chars();

    let mut dotted = copy_vec(token);
    dotted.push('.');
    let r1 = replace_chars(msg, &dotted, &empty);

    let mut dashed = copy_vec(token);
    dashed.push('-');
    let r2 = replace_chars(&r1, &dashed, &empty);

    let r3 = replace_chars(&r2, token, &empty);

    proof {
        crate::text::lemma_find_ch(token@, '.');
    }
    let r4 = match find_char(token, '.') {
        Some(dot) => {
            let first = sub_vec(token, 0, dot);
            let tlen = token.len();
            let second = sub_vec(token, dot + 1, tlen);
            proof {
                assert(first@ =~= token@.take(dot as int));
                assert(second@ =~= token@.skip(dot + 1));
            }
            let a = if first.len() >= 6 {
                replace_chars(&r3, &first, &ph)
            } else {
                r3
            };
            if second.len() >= 6 {
                replace_chars(&a, &second, &ph)
            } else {
                a
            }
        },
        None => r3,
    };

    if token.len() >= 10 {
        let mut cur = r4;
        let ghost done = scrub_from(cur@, token@, token@.len() as int);
        let mut w: usize = token.len();
        while w >= 8
            invariant
                w <= token@.len(),
                ph@ == placeholder(),
                scrub_from(cur@, token@, w as int) == done,
            decreases w,
        {
            let prefix = sub_vec(token, 0, w);
            proof {
                assert(prefix@ =~= token@.take(w as int));
            }
            let ghost prev = cur@;
            cur = replace_chars(&cur, &prefix, &ph);
            proof {
                assert(scrub_from(prev, token@, w as int) == scrub_from(
                    spec_replace(prev, token@.take(w as int), placeholder()),
                    token@,
                    w - 1,
                ));
            }
            w = w - 1;
        }
        cur
    } else {
        r4
    }
}

/// Scrubs every non-empty secret from `message`, in order.
pub fn sanitize_log_chars(msg: &Vec<char>, secrets: &Vec<Vec<char>>) -> (r: Vec<char>)
    ensures
        r@ == spec_sanitize_log(msg@, crate::text::views_of(secrets@)),
{
    let ghost vs = crate::text::views_of(secrets@);
    let mut cur = copy_vec(msg);
    let mut i: usize = 0;
    proof {
        assert(vs.skip(0) =~= vs);
    }
    while i < secrets.len()
        invariant
            i <= secrets@.len(),
            vs == crate::text::views_of(secrets@),
            spec_sanitize_log(msg@, vs) == spec_sanitize_log(cur@, vs.skip(i as int)),
        decreases secrets@.len() - i,
    {
        let ghost rem = vs.skip(i as int);
        if secrets[i].len() > 0 {
            cur = sanitize_token_chars(&cur, &secrets[i]);
        }
        proof {
            assert(rem[0] == vs[i as int]);
            assert(rem.drop_first() =~= vs.skip(i + 1));
        }
        i = i + 1;
    }
    proof {
        assert(vs.skip(vs.len() as int) =~= Seq::<Seq<char>>::empty());
    }
    cur
}

/// Scrubs one secret token from a log line.
pub fn sanitize_token(message: &str, token: &str) -> (r: String)
    ensures
        r@ == spec_sanitize_token(message@, token@),
{
    let msg = chars_of(message);
    let tok = chars_of(token);
    let out = sanitize_token_chars(&msg, &tok);
    string_from_chars(&out)
}

/// Scrubs every non-empty secret from a log line, in order.
pub fn sanitize_log(message: &str, secrets: &Vec<String>) -> (r: String)
    ensures
        r@ == spec_sanitize_log(message@, secrets.deep_view()),
{
    let msg = chars_of(message);
    let mut sv: Vec<Vec<char>> = Vec::new();
    let mut i: usize = 0;
    while i < secrets.len()
        invariant
            i <= secrets@.len(),
            sv@.len() == i,
            forall|j: int| 0 <= j < i ==> sv@[j]@ == secrets@[j]@,
        decreases secrets@.len() - i,
    {
        sv.push(chars_of(secrets[i].as_str()));
        i = i + 1;
    }
    proof {
        assert(crate::text::views_of(sv@) =~= secrets.deep_view());
    }
    let out = sanitize_log_chars(&msg, &sv);
    string_from_chars(&out)
}

proof fn lemma_occurs_prefix(h: Seq<char>, p: Seq<char>, q: Seq<char>, i: int)
    requires
        occurs_at(h, p, i),
        q.len() <= p.len(),
        q == p.take(q.len() as int),
    ensures
        occurs_at(h, q, i),
{
    assert forall|j: int| 0 <= j < q.len() implies h[i + j] == q[j] by {
        assert(h.subrange(i, i + p.len())[j] == h[i + j]);
        assert(p.take(q.len() as int)[j] == p[j]);
    }
    assert(h.subrange(i, i + q.len()) =~= q);
}

proof fn lemma_scrub_free(s: Seq<char>, token: Seq<char>, w: int)
    requires
        8 <= w <= token.len(),
        forall|i: int| 0 <= i < token.len() ==> token[i] != '*',
    ensures
        !contains_seq(scrub_from(s, token, w), token.take(8)),
    decreases w,
{
    let s2 = spec_replace(s, token.take(w), placeholder());
    if w == 8 {
        lemma_replace_free(s, token.take(8), placeholder());
        assert(scrub_from(s2, token, 7) == s2);
    } else {
        lemma_scrub_free(s2, token, w - 1);
    }
}

/// Redaction law: scrubbing a secret of at least ten characters that holds
/// no placeholder character leaves no prefix of the secret of length eight
/// or more in the line, the full secret included.
pub proof fn lemma_sanitize_token_redacts(msg: Seq<char>, token: Seq<char>)
    requires
        token.len() >= 10,
        forall|i: int| 0 <= i < token.len() ==> token[i] != '*',
    ensures
        forall|w: int|
            8 <= w <= token.len() ==> !contains_seq(
                spec_sanitize_token(msg, token),
                #[trigger] token.take(w),
            ),
        !contains_seq(spec_sanitize_token(msg, token), token),
{
    let r = spec_sanitize_token(msg, token);
    let dot = find_ch(token, '.');
    let r3 = spec_replace(
        spec_replace(
            spec_replace(msg, token.push('.'), Seq::<char>::empty()),
            token.push('-'),
            Seq::<char>::empty(),
        ),
        token,
        Seq::<char>::empty(),
    );
    let r4 = if dot >= 0 {
        let first = token.take(dot);
        let second = token.skip(dot + 1);
        let a = if first.len() >= 6 {
            spec_replace(r3, first, placeholder())
        } else {
            r3
        };
        if second.len() >= 6 {
            spec_replace(a, second, placeholder())
        } else {
            a
        }
    } else {
        r3
    };
    lemma_scrub_free(r4, token, token.len() as int);
    assert(!contains_seq(r, token.take(8)));
    assert forall|w: int| 8 <= w <= token.len() implies !contains_seq(
        r,
        #[trigger] token.take(w),
    ) by {
        if contains_seq(r, token.take(w)) {
            let i = choose|i: int| occurs_at(r, token.take(w), i);
            assert(token.take(w).take(8) =~= token.take(8));
            lemma_occurs_prefix(r, token.take(w), token.take(8), i);
            assert(contains_seq(r, token.take(8)));
        }
    }
    assert(token.take(token.len() as int) =~= token);
}

/// Redaction law at the log level, for a line scrubbed with one secret:
/// a secret of at least ten characters holding no placeholder character
/// leaves neither itself nor any of its prefixes of length eight or more
/// in the sanitized line.
pub proof fn lemma_sanitize_log_redacts(msg: Seq<char>, token: Seq<char>)
    requires
        token.len() >= 10,
        forall|i: int| 0 <= i < token.len() ==> token[i] != '*',
    ensures
        forall|w: int|
            8 <= w <= token.len() ==> !contains_seq(
                spec_sanitize_log(msg, seq![token]),
                #[trigger] token.take(w),
            ),
        !contains_seq(spec_sanitize_log(msg, seq![token]), token),
{
    let s: Seq<Seq<char>> = seq![token];
    assert(s[0] == token);
    assert(s.drop_first() =~= Seq::<Seq<char>>::empty());
    assert(spec_sanitize_log(spec_sanitize_token(msg, token), s.drop_first())
        == spec_sanitize_token(msg, token));
    assert(spec_sanitize_log(msg, s) == spec_sanitize_token(msg, token));
    lemma_sanitize_token_redacts(msg, token);
}

} // verus!
