//! Accelerator normalization.
//!
//! A raw accelerator is a `+`-joined list of tokens: modifiers followed by one
//! base key, case-insensitive, with arbitrary whitespace around each token.
//! Normalization splits, trims and drops empty tokens, moves the base to the
//! end, synthesizes a `Shift` modifier when the base is one of the shifted
//! punctuation marks `<`, `>`, `?` and no `Shift` is already present, and maps
//! those marks (and their unshifted partners `,`, `.`, `/`) to the canonical
//! key names the shortcut subsystem accepts.

use vstd::prelude::*;
use vstd::string::*;

use crate::text::{is_trimmed, lemma_trim_excludes, lemma_trim_is_trimmed, lemma_trim_of_trimmed, trim_range, trim_spec};

verus! {

/// Split on `'+'`, keeping empty pieces: the model of `str::split('+')`.
pub open spec fn split_plus(s: Seq<char>) -> Seq<Seq<char>>
    decreases s.len(),
{
    if s.len() == 0 {
        seq![Seq::<char>::empty()]
    } else if s[0] == '+' {
        seq![Seq::<char>::empty()] + split_plus(s.drop_first())
    } else {
        let rest = split_plus(s.drop_first());
        seq![seq![s[0]] + rest[0]] + rest.drop_first()
    }
}

/// Trim every piece and drop the empty ones.
pub open spec fn clean_tokens(pieces: Seq<Seq<char>>) -> Seq<Seq<char>>
    decreases pieces.len(),
{
    if pieces.len() == 0 {
        Seq::<Seq<char>>::empty()
    } else {
        let t = trim_spec(pieces[0]);
        let rest = clean_tokens(pieces.drop_first());
        if t.len() > 0 {
            seq![t] + rest
        } else {
            rest
        }
    }
}

/// The cleaned token list of a raw accelerator string.
pub open spec fn accel_tokens(s: Seq<char>) -> Seq<Seq<char>> {
    clean_tokens(split_plus(s))
}

/// A token that names the Shift modifier, compared case-insensitively.
pub open spec fn is_shift_token(t: Seq<char>) -> bool {
    &&& t.len() == 5
    &&& (t[0] == 's' || t[0] == 'S')
    &&& (t[1] == 'h' || t[1] == 'H')
    &&& (t[2] == 'i' || t[2] == 'I')
    &&& (t[3] == 'f' || t[3] == 'F')
    &&& (t[4] == 't' || t[4] == 'T')
}

/// Whether some modifier token already names Shift.
pub open spec fn has_shift_token(mods: Seq<Seq<char>>) -> bool {
    exists|i: int| 0 <= i < mods.len() && is_shift_token(#[trigger] mods[i])
}

/// The base keys that only exist as shifted punctuation.
pub open spec fn base_needs_shift(b: Seq<char>) -> bool {
    b.len() == 1 && (b[0] == '<' || b[0] == '>' || b[0] == '?')
}

/// Canonical name of a punctuation base key; everything else passes through.
pub open spec fn map_base(b: Seq<char>) -> Seq<char> {
    if b.len() == 1 && (b[0] == '<' || b[0] == ',') {
        "Comma"@
    } else if b.len() == 1 && (b[0] == '>' || b[0] == '.') {
        "Period"@
    } else if b.len() == 1 && (b[0] == '?' || b[0] == '/') {
        "Slash"@
    } else {
        b
    }
}

/// Normalization at the token level: modifiers in original order, a
/// synthesized `Shift` when the base demands one, then the mapped base.
pub open spec fn norm_tokens(ts: Seq<Seq<char>>) -> Seq<Seq<char>>
    recommends
        ts.len() > 0,
{
    let mods = ts.drop_last();
    let base = ts.last();
    let with_shift = if base_needs_shift(base) && !has_shift_token(mods) {
        mods + seq!["Shift"@]
    } else {
        mods
    };
    with_shift + seq![map_base(base)]
}

/// Join tokens with `'+'`.
pub open spec fn join_plus(ts: Seq<Seq<char>>) -> Seq<char>
    decreases ts.len(),
{
    if ts.len() == 0 {
        Seq::<char>::empty()
    } else if ts.len() == 1 {
        ts[0]
    } else {
        ts[0] + seq!['+'] + join_plus(ts.drop_first())
    }
}

/// The normalized form of a raw accelerator string.
pub open spec fn normalize_spec(s: Seq<char>) -> Seq<char> {
    let ts = accel_tokens(s);
    if ts.len() == 0 {
        Seq::<char>::empty()
    } else {
        join_plus(norm_tokens(ts))
    }
}

/// How `split_plus` decomposes at the first `'+'`: everything before `j` is
/// one piece, and the split continues after it.  With no `'+'` at all the
/// string is a single piece.
proof fn lemma_split_plus_first(s: Seq<char>, j: int)
    requires
        0 <= j <= s.len(),
        forall|k: int| 0 <= k < j ==> s[k] != '+',
        j < s.len() ==> s[j] == '+',
    ensures
        j < s.len() ==> split_plus(s) =~= seq![s.take(j)] + split_plus(s.skip(j + 1)),
        j == s.len() ==> split_plus(s) =~= seq![s],
    decreases s.len(),
{
    if s.len() == 0 {
        assert(s =~= Seq::<char>::empty());
    } else if s[0] == '+' {
        assert(j == 0);
        assert(s.take(0) =~= Seq::<char>::empty());
        assert(s.skip(1) =~= s.drop_first());
    } else {
        assert(j >= 1);
        let t = s.drop_first();
        assert forall|k: int| 0 <= k < j - 1 implies t[k] != '+' by {
            assert(t[k] == s[k + 1]);
        }
        lemma_split_plus_first(t, j - 1);
        let rest = split_plus(t);
        if j < s.len() {
            assert(rest =~= seq![t.take(j - 1)] + split_plus(t.skip(j)));
            assert(rest[0] == t.take(j - 1));
            assert(seq![s[0]] + t.take(j - 1) =~= s.take(j));
            assert(rest.drop_first() =~= split_plus(t.skip(j)));
            assert(t.skip(j) =~= s.skip(j + 1));
        } else {
            assert(rest =~= seq![t]);
            assert(seq![s[0]] + t =~= s);
            assert(rest.drop_first() =~= Seq::<Seq<char>>::empty());
        }
    }
}

/// `clean_tokens` distributes over concatenation.
proof fn lemma_clean_tokens_add(a: Seq<Seq<char>>, b: Seq<Seq<char>>)
    ensures
        clean_tokens(a + b) =~= clean_tokens(a) + clean_tokens(b),
    decreases a.len(),
{
    if a.len() == 0 {
        assert(a + b =~= b);
    } else {
        assert((a + b).drop_first() =~= a.drop_first() + b);
        assert((a + b)[0] == a[0]);
        lemma_clean_tokens_add(a.drop_first(), b);
    }
}

/// No piece produced by `split_plus` contains `'+'`.
proof fn lemma_split_plus_no_plus(s: Seq<char>)
    ensures
        forall|i: int, k: int|
            0 <= i < split_plus(s).len() && 0 <= k < split_plus(s)[i].len()
                ==> #[trigger] split_plus(s)[i][k] != '+',
    decreases s.len(),
{
    if s.len() == 0 {
        assert(split_plus(s) =~= seq![Seq::<char>::empty()]);
    } else if s[0] == '+' {
        lemma_split_plus_no_plus(s.drop_first());
        let rest = split_plus(s.drop_first());
        assert forall|i: int, k: int|
            0 <= i < split_plus(s).len() && 0 <= k < split_plus(s)[i].len() implies #[trigger] split_plus(
            s,
        )[i][k] != '+' by {
            if i > 0 {
                assert(split_plus(s)[i] == rest[i - 1]);
            }
        }
    } else {
        lemma_split_plus_no_plus(s.drop_first());
        let rest = split_plus(s.drop_first());
        assert forall|i: int, k: int|
            0 <= i < split_plus(s).len() && 0 <= k < split_plus(s)[i].len() implies #[trigger] split_plus(
            s,
        )[i][k] != '+' by {
            if i == 0 {
                if k == 0 {
                } else {
                    assert(split_plus(s)[0][k] == rest[0][k - 1]);
                }
            } else {
                assert(split_plus(s)[i] == rest[i]);
            }
        }
    }
}

/// Every cleaned token is non-empty, trimmed, and free of `'+'`.
pub proof fn lemma_accel_tokens_wf(s: Seq<char>)
    ensures
        forall|i: int|
            0 <= i < accel_tokens(s).len() ==> {
                let t = #[trigger] accel_tokens(s)[i];
                t.len() > 0 && is_trimmed(t) && (forall|k: int| 0 <= k < t.len() ==> t[k] != '+')
            },
{
    lemma_split_plus_no_plus(s);
    lemma_clean_tokens_wf(split_plus(s));
}

proof fn lemma_clean_tokens_wf(pieces: Seq<Seq<char>>)
    requires
        forall|i: int, k: int|
            0 <= i < pieces.len() && 0 <= k < pieces[i].len() ==> #[trigger] pieces[i][k] != '+',
    ensures
        forall|i: int|
            0 <= i < clean_tokens(pieces).len() ==> {
                let t = #[trigger] clean_tokens(pieces)[i];
                t.len() > 0 && is_trimmed(t) && (forall|k: int| 0 <= k < t.len() ==> t[k] != '+')
            },
    decreases pieces.len(),
{
    if pieces.len() == 0 {
    } else {
        let p = pieces[0];
        let t = trim_spec(p);
        lemma_trim_is_trimmed(p);
        assert(forall|k: int| 0 <= k < p.len() ==> p[k] != '+');
        lemma_trim_excludes(p, '+');
        assert forall|i: int, k: int|
            0 <= i < pieces.drop_first().len() && 0 <= k < pieces.drop_first()[i].len()
            implies #[trigger] pieces.drop_first()[i][k] != '+' by {
            assert(pieces.drop_first()[i] == pieces[i + 1]);
        }
        lemma_clean_tokens_wf(pieces.drop_first());
        let rest = clean_tokens(pieces.drop_first());
        assert forall|i: int| 0 <= i < clean_tokens(pieces).len() implies {
            let u = #[trigger] clean_tokens(pieces)[i];
            u.len() > 0 && is_trimmed(u) && (forall|k: int| 0 <= k < u.len() ==> u[k] != '+')
        } by {
            if t.len() > 0 {
                if i == 0 {
                    assert(clean_tokens(pieces)[0] == t);
                } else {
                    assert(clean_tokens(pieces)[i] == rest[i - 1]);
                }
            } else {
                assert(clean_tokens(pieces)[i] == rest[i]);
            }
        }
    }
}

/// Appending one token to a joined list: a separator appears exactly when the
/// list was non-empty.
proof fn lemma_join_push(a: Seq<Seq<char>>, t: Seq<char>)
    ensures
        a.len() == 0 ==> join_plus(a.push(t)) =~= t,
        a.len() > 0 ==> join_plus(a.push(t)) =~= join_plus(a) + seq!['+'] + t,
    decreases a.len(),
{
    if a.len() == 0 {
        assert(a.push(t).len() == 1);
        assert(a.push(t)[0] == t);
    } else {
        lemma_join_push(a.drop_first(), t);
        assert(a.push(t).drop_first() =~= a.drop_first().push(t));
        assert(a.push(t)[0] == a[0]);
        if a.len() == 1 {
            assert(join_plus(a) == a[0]);
        }
    }
}

/// The token list a vector of index ranges stands for.
pub open spec fn ranges_model(s: Seq<char>, toks: Seq<(usize, usize)>) -> Seq<Seq<char>> {
    toks.map_values(|r: (usize, usize)| s.subrange(r.0 as int, r.1 as int))
}

/// Valid index ranges into `s`.
pub open spec fn ranges_wf(s: Seq<char>, toks: Seq<(usize, usize)>) -> bool {
    forall|i: int|
        0 <= i < toks.len() ==> (#[trigger] toks[i]).0 <= toks[i].1 && toks[i].1 <= s.len()
}

/// Splits `s` on `'+'`, trims each piece, and returns the index ranges of the
/// non-empty trimmed tokens, in order.
fn tokenize(s: &str) -> (toks: Vec<(usize, usize)>)
    ensures
        ranges_model(s@, toks@) =~= accel_tokens(s@),
        ranges_wf(s@, toks@),
{
    let n = s.unicode_len();
    let mut toks: Vec<(usize, usize)> = Vec::new();
    let mut i: usize = 0;
    proof {
        assert(s@.skip(0) =~= s@);
        assert(ranges_model(s@, toks@) + accel_tokens(s@) =~= accel_tokens(s@));
    }
    loop
        invariant
            i <= n,
            n == s@.len(),
            ranges_wf(s@, toks@),
            accel_tokens(s@) =~= ranges_model(s@, toks@) + clean_tokens(
                split_plus(s@.skip(i as int)),
            ),
        decreases n - i,
    {
        let ghost prefix_model = ranges_model(s@, toks@);
        let mut j = i;
        while j < n && s.get_char(j) != '+'
            invariant
                i <= j <= n,
                n == s@.len(),
                forall|k: int| i <= k < j ==> s@[k] != '+',
            decreases n - j,
        {
            j = j + 1;
        }
        let (a, b) = trim_range(s, i, j);
        let ghost piece = s@.subrange(i as int, j as int);
        let ghost t = s@.skip(i as int);
        proof {
            assert forall|k: int| 0 <= k < j - i implies t[k] != '+' by {
                assert(t[k] == s@[i + k]);
            }
            if j < n {
                assert(t[j - i] == s@[j as int]);
            }
            lemma_split_plus_first(t, j - i);
            assert(t.take(j - i) =~= piece);
        }
        if a < b {
            toks.push((a, b));
            proof {
                assert(ranges_model(s@, toks@) =~= prefix_model.push(trim_spec(piece)));
            }
        }
        if j == n {
            proof {
                assert(split_plus(t) =~= seq![piece]);
                assert(seq![piece].drop_first() =~= Seq::<Seq<char>>::empty());
            assert(clean_tokens(Seq::<Seq<char>>::empty()) =~= Seq::<Seq<char>>::empty());
                if a < b {
                    assert(clean_tokens(seq![piece]) =~= seq![trim_spec(piece)]);
                    assert(prefix_model.push(trim_spec(piece)) =~= prefix_model + seq![
                        trim_spec(piece),
                    ]);
                } else {
                    assert(trim_spec(piece).len() == 0);
                    assert(clean_tokens(seq![piece]) =~= Seq::<Seq<char>>::empty());
                }
                assert(accel_tokens(s@) =~= ranges_model(s@, toks@));
            }
            return toks;
        }
        proof {
            assert(split_plus(t) =~= seq![piece] + split_plus(t.skip(j - i + 1)));
            lemma_clean_tokens_add(seq![piece], split_plus(t.skip(j - i + 1)));
            assert(seq![piece].drop_first() =~= Seq::<Seq<char>>::empty());
            assert(clean_tokens(Seq::<Seq<char>>::empty()) =~= Seq::<Seq<char>>::empty());
            if a < b {
                assert(clean_tokens(seq![piece]) =~= seq![trim_spec(piece)]);
                assert(prefix_model.push(trim_spec(piece)) =~= prefix_model + seq![
                    trim_spec(piece),
                ]);
            } else {
                assert(trim_spec(piece).len() == 0);
                assert(clean_tokens(seq![piece]) =~= Seq::<Seq<char>>::empty());
            }
            assert(t.skip(j - i + 1) =~= s@.skip(j + 1 as int));
        }
        i = j + 1;
    }
}

/// Decides `is_shift_token` on the range `[a, b)` of `s`.
fn range_is_shift(s: &str, a: usize, b: usize) -> (r: bool)
    requires
        a <= b && b <= s@.len(),
    ensures
        r == is_shift_token(s@.subrange(a as int, b as int)),
{
    let ghost t = s@.subrange(a as int, b as int);
    if b - a != 5 {
        return false;
    }
    let c0 = s.get_char(a);
    let c1 = s.get_char(a + 1);
    let c2 = s.get_char(a + 2);
    let c3 = s.get_char(a + 3);
    let c4 = s.get_char(a + 4);
    proof {
        assert(t[0] == s@[a as int]);
        assert(t[1] == s@[a + 1 as int]);
        assert(t[2] == s@[a + 2 as int]);
        assert(t[3] == s@[a + 3 as int]);
        assert(t[4] == s@[a + 4 as int]);
    }
    (c0 == 's' || c0 == 'S') && (c1 == 'h' || c1 == 'H') && (c2 == 'i' || c2 == 'I') && (c3 == 'f'
        || c3 == 'F') && (c4 == 't' || c4 == 'T')
}

/// Turns a human-entered accelerator string into its canonical form: trimmed
/// tokens, modifiers first in their original order, a synthesized `Shift`
/// when the base key is shifted punctuation, and the base mapped to the key
/// name the shortcut subsystem accepts.  An input with no tokens normalizes
/// to the empty string, which callers treat as invalid.
pub fn normalize_shortcut_string(s: &str) -> (r: String)
    ensures
        r@ == normalize_spec(s@),
{
    let toks = tokenize(s);
    let count = toks.len();
    let ghost ts = accel_tokens(s@);
    if count == 0 {
        return String::new();
    }
    let ghost mods = ts.drop_last();
    let ghost base = ts.last();

    // Collect the output tokens: modifiers, optional Shift, mapped base.
    let mut parts: Vec<String> = Vec::new();
    let mut shift_present = false;
    let mut k: usize = 0;
    while k < count - 1
        invariant
            k <= count - 1,
            count == toks@.len(),
            toks@.len() == ts.len(),
            ranges_model(s@, toks@) =~= ts,
            ranges_wf(s@, toks@),
            mods == ts.drop_last(),
            shift_present == has_shift_token(mods.take(k as int)),
            parts@.map_values(|p: String| p@) =~= mods.take(k as int),
        decreases count - 1 - k,
    {
        let (a, b) = toks[k];
        proof {
            assert(ts[k as int] == s@.subrange(a as int, b as int));
            assert(mods[k as int] == ts[k as int]);
        }
        if range_is_shift(s, a, b) {
            shift_present = true;
        }
        parts.push(s.substring_char(a, b).to_owned());
        proof {
            let m0 = mods.take(k as int);
            let m1 = mods.take(k + 1 as int);
            assert(m1 =~= m0.push(mods[k as int]));
            assert(parts@.map_values(|p: String| p@) =~= m0.push(mods[k as int]));
            if is_shift_token(mods[k as int]) {
                assert(m1[k as int] == mods[k as int]);
                assert(has_shift_token(m1));
            }
            if has_shift_token(m0) {
                let i = choose|i: int| 0 <= i < m0.len() && is_shift_token(#[trigger] m0[i]);
                assert(m1[i] == m0[i]);
                assert(has_shift_token(m1));
            }
            if has_shift_token(m1) && !has_shift_token(m0) && !is_shift_token(mods[k as int]) {
                let i = choose|i: int| 0 <= i < m1.len() && is_shift_token(#[trigger] m1[i]);
                if i < k {
                    assert(m0[i] == m1[i]);
                    assert(is_shift_token(m0[i]));
                } else {
                    assert(m1[i] == mods[k as int]);
                }
                assert(false);
            }
        }
        k = k + 1;
    }
    proof {
        assert(mods.take(count - 1 as int) =~= mods);
    }

    // The base token.
    let (ba, bb) = toks[count - 1];
    proof {
        assert(ts[count - 1 as int] == s@.subrange(ba as int, bb as int));
        assert(base == ts[count - 1 as int]);
    }
    let single = if bb - ba == 1 {
        Some(s.get_char(ba))
    } else {
        None
    };
    proof {
        if bb - ba == 1 {
            assert(base[0] == s@[ba as int]);
        }
    }
    let needs_shift = match single {
        Some(c) => c == '<' || c == '>' || c == '?',
        None => false,
    };
    assert(needs_shift == base_needs_shift(base));
    if needs_shift && !shift_present {
        parts.push("Shift".to_owned());
    }
    let mapped: String = match single {
        Some(c) => {
            if c == '<' || c == ',' {
                "Comma".to_owned()
            } else if c == '>' || c == '.' {
                "Period".to_owned()
            } else if c == '?' || c == '/' {
                "Slash".to_owned()
            } else {
                s.substring_char(ba, bb).to_owned()
            }
        },
        None => s.substring_char(ba, bb).to_owned(),
    };
    assert(mapped@ == map_base(base));
    parts.push(mapped);
    let ghost out_tokens = norm_tokens(ts);
    proof {
        assert(parts@.map_values(|p: String| p@) =~= out_tokens);
    }

    // Join with '+'.
    let mut out = String::new();
    let mut k2: usize = 0;
    while k2 < parts.len()
        invariant
            k2 <= parts@.len(),
            parts@.map_values(|p: String| p@) =~= out_tokens,
            out@ =~= join_plus(out_tokens.take(k2 as int)),
        decreases parts@.len() - k2,
    {
        if k2 > 0 {
            out.append("+");
            proof {
                reveal_strlit("+");
            }
        }
        out.append(parts[k2].as_str());
        proof {
            assert(parts@.map_values(|p: String| p@)[k2 as int] == parts@[k2 as int]@);
            assert(out_tokens.take(k2 + 1 as int) =~= out_tokens.take(k2 as int).push(
                out_tokens[k2 as int],
            ));
            lemma_join_push(out_tokens.take(k2 as int), out_tokens[k2 as int]);
        }
        k2 = k2 + 1;
    }
    proof {
        assert(out_tokens.take(parts@.len() as int) =~= out_tokens);
        assert(out_tokens.len() > 0);
    }
    out
}

/// Joining then splitting on `'+'` gives the tokens back, as long as no token
/// is empty or contains `'+'` itself.
proof fn lemma_split_of_join(ts: Seq<Seq<char>>)
    requires
        ts.len() > 0,
        forall|i: int|
            0 <= i < ts.len() ==> (#[trigger] ts[i]).len() > 0 && (forall|k: int|
                0 <= k < ts[i].len() ==> ts[i][k] != '+'),
    ensures
        split_plus(join_plus(ts)) =~= ts,
    decreases ts.len(),
{
    let j = join_plus(ts);
    if ts.len() == 1 {
        assert(j == ts[0]);
        lemma_split_plus_first(j, j.len() as int);
    } else {
        let rest = ts.drop_first();
        assert forall|i: int|
            0 <= i < rest.len() implies (#[trigger] rest[i]).len() > 0 && (forall|k: int|
            0 <= k < rest[i].len() ==> rest[i][k] != '+') by {
            assert(rest[i] == ts[i + 1]);
        }
        lemma_split_of_join(rest);
        let len0 = ts[0].len() as int;
        assert(j == ts[0] + seq!['+'] + join_plus(rest));
        assert forall|k: int| 0 <= k < len0 implies j[k] != '+' by {
            assert(j[k] == ts[0][k]);
        }
        assert(j[len0] == '+');
        lemma_split_plus_first(j, len0);
        assert(j.take(len0) =~= ts[0]);
        assert(j.skip(len0 + 1) =~= join_plus(rest));
    }
}

/// Cleaning a token list whose tokens are already non-empty and trimmed is
/// the identity.
proof fn lemma_clean_tokens_identity(ps: Seq<Seq<char>>)
    requires
        forall|i: int|
            0 <= i < ps.len() ==> (#[trigger] ps[i]).len() > 0 && is_trimmed(ps[i]),
    ensures
        clean_tokens(ps) =~= ps,
    decreases ps.len(),
{
    if ps.len() > 0 {
        lemma_trim_of_trimmed(ps[0]);
        assert forall|i: int|
            0 <= i < ps.drop_first().len() implies (#[trigger] ps.drop_first()[i]).len() > 0
            && is_trimmed(ps.drop_first()[i]) by {
            assert(ps.drop_first()[i] == ps[i + 1]);
        }
        lemma_clean_tokens_identity(ps.drop_first());
    }
}

/// The tokens a normalized accelerator is made of are non-empty, trimmed,
/// `'+'`-free, and end in a base that no longer asks for a synthesized Shift.
proof fn lemma_norm_tokens_wf(s: Seq<char>)
    requires
        accel_tokens(s).len() > 0,
    ensures
        ({
            let us = norm_tokens(accel_tokens(s));
            &&& us.len() > 0
            &&& forall|i: int|
                0 <= i < us.len() ==> (#[trigger] us[i]).len() > 0 && is_trimmed(us[i]) && (
                forall|k: int| 0 <= k < us[i].len() ==> us[i][k] != '+')
            &&& !base_needs_shift(us.last())
            &&& map_base(us.last()) == us.last()
        }),
{
    reveal_strlit("Shift");
    reveal_strlit("Comma");
    reveal_strlit("Period");
    reveal_strlit("Slash");
    let ts = accel_tokens(s);
    lemma_accel_tokens_wf(s);
    let us = norm_tokens(ts);
    let base = ts.last();
    let mapped = map_base(base);
    assert(ts.last() == ts[ts.len() - 1]);
    assert(mapped.len() > 0 && is_trimmed(mapped) && (forall|k: int|
        0 <= k < mapped.len() ==> mapped[k] != '+'));
    assert(!base_needs_shift(mapped));
    assert(map_base(mapped) == mapped);
    let shift = "Shift"@;
    assert(shift.len() == 5 && is_trimmed(shift) && (forall|k: int|
        0 <= k < shift.len() ==> shift[k] != '+'));
    assert forall|i: int|
        0 <= i < us.len() implies (#[trigger] us[i]).len() > 0 && is_trimmed(us[i]) && (forall|
        k: int,
    |
        0 <= k < us[i].len() ==> us[i][k] != '+') by {
        if i < ts.len() - 1 {
            assert(us[i] == ts.drop_last()[i]);
            assert(ts.drop_last()[i] == ts[i]);
        } else if i == us.len() - 1 {
            assert(us[i] == mapped);
        } else {
            assert(us[i] == shift);
        }
    }
    assert(us.last() == mapped);
}

/// Law: a valid accelerator whose base is one of the shifted punctuation
/// marks and whose modifiers name no Shift normalizes to the original
/// modifiers, exactly one synthesized `Shift`, and the canonical base name.
pub proof fn lemma_shifted_base_synthesizes_shift(s: Seq<char>)
    requires
        accel_tokens(s).len() > 0,
        base_needs_shift(accel_tokens(s).last()),
        !has_shift_token(accel_tokens(s).drop_last()),
    ensures
        normalize_spec(s) == join_plus(
            accel_tokens(s).drop_last() + seq!["Shift"@] + seq![
                map_base(accel_tokens(s).last()),
            ],
        ),
{
    let ts = accel_tokens(s);
    assert(ts.drop_last() + seq!["Shift"@] + seq![map_base(ts.last())] =~= norm_tokens(ts));
}

/// Law: normalization is idempotent — normalizing an already normalized
/// accelerator changes nothing.
pub proof fn lemma_normalize_idempotent(s: Seq<char>)
    ensures
        normalize_spec(normalize_spec(s)) == normalize_spec(s),
{
    let ts = accel_tokens(s);
    if ts.len() == 0 {
        assert(normalize_spec(s) == Seq::<char>::empty());
        assert(split_plus(Seq::<char>::empty()) =~= seq![Seq::<char>::empty()]);
        assert(trim_spec(Seq::<char>::empty()).len() == 0);
        assert(clean_tokens(Seq::<Seq<char>>::empty()) =~= Seq::<Seq<char>>::empty());
        assert(seq![Seq::<char>::empty()].drop_first() =~= Seq::<Seq<char>>::empty());
        assert(accel_tokens(Seq::<char>::empty()).len() == 0);
    } else {
        let us = norm_tokens(ts);
        let out = join_plus(us);
        lemma_norm_tokens_wf(s);
        lemma_split_of_join(us);
        lemma_clean_tokens_identity(us);
        assert(accel_tokens(out) =~= us);
        // Re-normalizing the tokens changes nothing: the base is already
        // mapped and demands no Shift, and the modifiers are untouched.
        assert(norm_tokens(us) =~= us.drop_last() + seq![us.last()]);
        assert(us.drop_last() + seq![us.last()] =~= us);
        assert(normalize_spec(out) == join_plus(us));
    }
}

} // verus!
