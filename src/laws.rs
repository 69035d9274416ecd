//! Facts about the parser: the catalog parses back, ASCII case does not
//! matter, and text of another shape is custom arguments.

use vstd::prelude::*;
use crate::axes::{
    FFmpegCodec, FFmpegHwAccel, FFmpegQuality, ascii_lower, is_word_char, lower_char,
};
use crate::parse::{
    Found, PresetErrorModel, is_preset_shaped, is_supported, resolve_token, resolve_tokens,
    spec_parse, split_dash,
};
use crate::preset::{PresetMatch, PresetModel, spec_available_matches, token_form};

verus! {

/// A non-empty run of word characters.
pub open spec fn is_word(s: Seq<char>) -> bool {
    s.len() > 0 && forall|i: int| 0 <= i < s.len() ==> is_word_char(#[trigger] s[i])
}

proof fn lemma_split_nonempty(s: Seq<char>)
    ensures
        split_dash(s).len() >= 1,
    decreases s.len(),
{
    if s.len() > 0 {
        lemma_split_nonempty(s.drop_last());
    }
}

/// Characters without a dash extend the last piece.
proof fn lemma_split_extend(p: Seq<char>, b: Seq<char>)
    requires
        forall|i: int| 0 <= i < b.len() ==> #[trigger] b[i] != '-',
    ensures
        split_dash(p + b) == split_dash(p).update(
            split_dash(p).len() - 1,
            split_dash(p).last() + b,
        ),
    decreases b.len(),
{
    lemma_split_nonempty(p);
    if b.len() == 0 {
        assert(p + b =~= p);
        assert(split_dash(p).last() + b =~= split_dash(p).last());
        assert(split_dash(p).update(split_dash(p).len() - 1, split_dash(p).last())
            =~= split_dash(p));
    } else {
        let b0 = b.drop_last();
        assert forall|i: int| 0 <= i < b0.len() implies #[trigger] b0[i] != '-' by {
            assert(b0[i] == b[i]);
        }
        lemma_split_extend(p, b0);
        assert(b[b.len() - 1] != '-');
        assert((p + b).drop_last() =~= p + b0);
        assert((p + b).last() == b.last());
        let x = split_dash(p);
        let k = x.len() - 1;
        let prev = split_dash(p + b0);
        assert(prev == x.update(k, x.last() + b0));
        assert(prev.len() == x.len());
        assert(prev.last() == x.last() + b0);
        assert((x.last() + b0).push(b.last()) =~= x.last() + b);
        assert(split_dash(p + b) == prev.update(k, prev.last().push(b.last())));
        assert(split_dash(p + b) =~= split_dash(p).update(
            split_dash(p).len() - 1,
            split_dash(p).last() + b,
        ));
    }
}

/// A dash followed by dash-free characters adds one piece.
proof fn lemma_split_dash_piece(p: Seq<char>, b: Seq<char>)
    requires
        forall|i: int| 0 <= i < b.len() ==> #[trigger] b[i] != '-',
    ensures
        split_dash(p + seq!['-'] + b) == split_dash(p).push(b),
{
    let pd = p + seq!['-'];
    assert(pd.drop_last() =~= p);
    lemma_split_extend(pd, b);
    assert(Seq::<char>::empty() + b =~= b);
    assert(split_dash(pd).update(split_dash(pd).len() - 1, split_dash(pd).last() + b)
        =~= split_dash(p).push(b));
}

proof fn lemma_split_word(a: Seq<char>)
    requires
        is_word(a),
    ensures
        split_dash(a) == seq![a],
{
    assert forall|i: int| 0 <= i < a.len() implies #[trigger] a[i] != '-' by {
        assert(is_word_char(a[i]));
    }
    lemma_split_extend(Seq::<char>::empty(), a);
    assert(Seq::<char>::empty() + a =~= a);
    assert(split_dash(Seq::<char>::empty()).update(0, Seq::<char>::empty() + a) =~= seq![a]);
}

proof fn lemma_shaped_word(a: Seq<char>)
    requires
        is_word(a),
    ensures
        is_preset_shaped(a),
{
    assert(is_word_char(a[0]));
    assert(is_word_char(a[a.len() - 1]));
}

proof fn lemma_shaped_join(a: Seq<char>, b: Seq<char>)
    requires
        is_preset_shaped(a),
        is_word(b),
    ensures
        is_preset_shaped(a + seq!['-'] + b),
{
    let s = a + seq!['-'] + b;
    let n = a.len();
    assert(s[0] == a[0]);
    assert(s.last() == b.last());
    assert(is_word_char(b[b.len() - 1]));
    assert forall|i: int| 0 <= i < s.len() implies is_word_char(#[trigger] s[i]) || s[i] == '-' by {
        if i < n {
            assert(s[i] == a[i]);
        } else if i > n {
            assert(s[i] == b[i - n - 1]);
        }
    }
    assert forall|i: int| 0 <= i < s.len() - 1 implies !(#[trigger] s[i] == '-' && s[i + 1]
        == '-') by {
        if i < n - 1 {
            assert(s[i] == a[i] && s[i + 1] == a[i + 1]);
        } else if i == n - 1 {
            assert(s[i] == a[n - 1]);
        } else if i == n {
            assert(s[i + 1] == b[0]);
            assert(is_word_char(b[0]));
        } else {
            assert(s[i] == b[i - n - 1]);
            assert(is_word_char(b[i - n - 1]));
        }
    }
}

proof fn lemma_resolve_push(input: Seq<char>, toks: Seq<Seq<char>>, t: Seq<char>)
    ensures
        resolve_tokens(input, toks.push(t)) == match resolve_tokens(input, toks) {
            Err(e) => Err(e),
            Ok(f) => resolve_token(input, f, t),
        },
{
    assert(toks.push(t).drop_last() =~= toks);
}

proof fn lemma_codec_token(c: FFmpegCodec)
    ensures
        is_word(c.spec_name()),
        FFmpegCodec::spec_from_token(c.spec_name()) == Some(c),
{
    let n = c.spec_name();
    assert(ascii_lower(n) =~= n);
}

proof fn lemma_accel_token(h: FFmpegHwAccel)
    ensures
        is_word(h.spec_name()),
        FFmpegCodec::spec_from_token(h.spec_name()) == None::<FFmpegCodec>,
        FFmpegHwAccel::spec_from_token(h.spec_name()) == Some(h),
{
    let n = h.spec_name();
    assert(ascii_lower(n) =~= n);
}

proof fn lemma_quality_token(q: FFmpegQuality)
    ensures
        is_word(q.spec_name()),
        FFmpegCodec::spec_from_token(q.spec_name()) == None::<FFmpegCodec>,
        FFmpegHwAccel::spec_from_token(q.spec_name()) == None::<FFmpegHwAccel>,
        FFmpegQuality::spec_from_token(q.spec_name()) == Some(q),
{
    let n = q.spec_name();
    assert(ascii_lower(n) =~= n);
}

/// Every catalog entry, written as its tokens, parses back to that entry,
/// with `Normal` quality where the entry names none.
pub proof fn lemma_catalog_round_trip(m: PresetMatch)
    requires
        spec_available_matches().contains(m),
    ensures
        spec_parse(token_form(m)) == Ok::<PresetModel, PresetErrorModel>(
            PresetModel::Predefined(
                m.0,
                m.1,
                match m.2 {
                    Some(q) => q,
                    None => FFmpegQuality::Normal,
                },
            ),
        ),
{
    let (c, h, q) = m;
    let s = token_form(m);
    let cn = c.spec_name();
    lemma_codec_token(c);
    lemma_shaped_word(cn);
    lemma_split_word(cn);
    assert(is_supported(c, h, q));
    let empty = Seq::<Seq<char>>::empty();
    assert(resolve_tokens(s, empty) == Ok::<Found, PresetErrorModel>((None, None, None)));
    lemma_resolve_push(s, empty, cn);
    assert(empty.push(cn) =~= seq![cn]);
    match (h, q) {
        (None, None) => {
            assert(s =~= cn);
        },
        (Some(h), None) => {
            let hn = h.spec_name();
            lemma_accel_token(h);
            assert(s =~= cn + seq!['-'] + hn);
            assert forall|i: int| 0 <= i < hn.len() implies #[trigger] hn[i] != '-' by {
                assert(is_word_char(hn[i]));
            }
            lemma_shaped_join(cn, hn);
            lemma_split_dash_piece(cn, hn);
            lemma_resolve_push(s, seq![cn], hn);
        },
        (None, Some(q)) => {
            let qn = q.spec_name();
            lemma_quality_token(q);
            assert(s =~= cn + seq!['-'] + qn);
            assert forall|i: int| 0 <= i < qn.len() implies #[trigger] qn[i] != '-' by {
                assert(is_word_char(qn[i]));
            }
            lemma_shaped_join(cn, qn);
            lemma_split_dash_piece(cn, qn);
            lemma_resolve_push(s, seq![cn], qn);
        },
        (Some(h), Some(q)) => {
            let hn = h.spec_name();
            let qn = q.spec_name();
            lemma_accel_token(h);
            lemma_quality_token(q);
            let ch = cn + seq!['-'] + hn;
            assert(s =~= ch + seq!['-'] + qn);
            assert forall|i: int| 0 <= i < hn.len() implies #[trigger] hn[i] != '-' by {
                assert(is_word_char(hn[i]));
            }
            assert forall|i: int| 0 <= i < qn.len() implies #[trigger] qn[i] != '-' by {
                assert(is_word_char(qn[i]));
            }
            lemma_shaped_join(cn, hn);
            lemma_shaped_join(ch, qn);
            lemma_split_dash_piece(cn, hn);
            lemma_split_dash_piece(ch, qn);
            lemma_resolve_push(s, seq![cn], hn);
            lemma_resolve_push(s, seq![cn].push(hn), qn);
        },
    }
}

proof fn lemma_lower_char(c: char)
    ensures
        (lower_char(c) == '-') == (c == '-'),
        is_word_char(lower_char(c)) == is_word_char(c),
{
}

proof fn lemma_lower_shaped(s: Seq<char>)
    ensures
        is_preset_shaped(ascii_lower(s)) == is_preset_shaped(s),
{
    let l = ascii_lower(s);
    assert forall|i: int| 0 <= i < s.len() implies #[trigger] l[i] == lower_char(s[i]) by {}
    assert forall|i: int| 0 <= i < s.len() implies ((#[trigger] l[i] == '-') == (s[i] == '-')
        && is_word_char(l[i]) == is_word_char(s[i])) by {
        lemma_lower_char(s[i]);
    }
    if s.len() > 0 {
        assert(l.last() == l[s.len() - 1]);
    }
    assert(l.len() == s.len());
    if is_preset_shaped(s) {
        assert(l[0] != '-');
        assert forall|i: int| 0 <= i < l.len() implies is_word_char(#[trigger] l[i]) || l[i] == '-' by {
            assert(is_word_char(s[i]) || s[i] == '-');
        }
        assert forall|i: int| 0 <= i < l.len() - 1 implies !(#[trigger] l[i] == '-' && l[i + 1]
            == '-') by {
            assert(!(s[i] == '-' && s[i + 1] == '-'));
        }
    }
    if is_preset_shaped(l) {
        assert(s[0] != '-');
        assert forall|i: int| 0 <= i < s.len() implies is_word_char(#[trigger] s[i]) || s[i] == '-' by {
            assert(is_word_char(l[i]) || l[i] == '-');
        }
        assert forall|i: int| 0 <= i < s.len() - 1 implies !(#[trigger] s[i] == '-' && s[i + 1]
            == '-') by {
            assert(!(l[i] == '-' && l[i + 1] == '-'));
        }
    }
}

proof fn lemma_split_lower(s: Seq<char>)
    ensures
        split_dash(ascii_lower(s)) == split_dash(s).map_values(|t: Seq<char>| ascii_lower(t)),
    decreases s.len(),
{
    let l = ascii_lower(s);
    if s.len() == 0 {
        assert(l =~= Seq::<char>::empty());
        assert(ascii_lower(Seq::<char>::empty()) =~= Seq::<char>::empty());
        assert(split_dash(s).map_values(|t: Seq<char>| ascii_lower(t)) =~= split_dash(l));
    } else {
        lemma_split_lower(s.drop_last());
        lemma_split_nonempty(s.drop_last());
        lemma_lower_char(s.last());
        assert(l.drop_last() =~= ascii_lower(s.drop_last()));
        assert(l.last() == lower_char(s.last()));
        let prev = split_dash(s.drop_last());
        assert(ascii_lower(Seq::<char>::empty()) =~= Seq::<char>::empty());
        assert(ascii_lower(prev.last().push(s.last())) =~= ascii_lower(prev.last()).push(
            lower_char(s.last()),
        ));
        assert(split_dash(s).map_values(|t: Seq<char>| ascii_lower(t)) =~= split_dash(l));
    }
}

/// Two resolutions agree: the same outcome, where an unknown token counts
/// as the same outcome whatever text it quotes.
pub open spec fn same_outcome(
    a: Result<Found, PresetErrorModel>,
    b: Result<Found, PresetErrorModel>,
) -> bool {
    match (a, b) {
        (Err(PresetErrorModel::UnknownToken(_, _)), Err(PresetErrorModel::UnknownToken(_, _))) => true,
        _ => a == b,
    }
}

proof fn lemma_resolve_lower(i1: Seq<char>, t1: Seq<Seq<char>>, i2: Seq<char>, t2: Seq<Seq<char>>)
    requires
        t1.len() == t2.len(),
        forall|k: int| 0 <= k < t1.len() ==> ascii_lower(#[trigger] t1[k]) == ascii_lower(t2[k]),
    ensures
        same_outcome(resolve_tokens(i1, t1), resolve_tokens(i2, t2)),
    decreases t1.len(),
{
    if t1.len() > 0 {
        assert(ascii_lower(t1[t1.len() - 1]) == ascii_lower(t2[t2.len() - 1]));
        lemma_resolve_lower(i1, t1.drop_last(), i2, t2.drop_last());
    }
}

/// Parsing ignores ASCII case: where a text parses to a predefined preset,
/// every text that agrees with it once lower-cased parses to the same.
pub proof fn lemma_parse_ignores_case(s1: Seq<char>, s2: Seq<char>)
    requires
        ascii_lower(s1) == ascii_lower(s2),
        spec_parse(s1) matches Ok(PresetModel::Predefined(_, _, _)),
    ensures
        spec_parse(s2) == spec_parse(s1),
{
    lemma_lower_shaped(s1);
    lemma_lower_shaped(s2);
    lemma_split_lower(s1);
    lemma_split_lower(s2);
    let t1 = split_dash(s1);
    let t2 = split_dash(s2);
    let m1 = t1.map_values(|t: Seq<char>| ascii_lower(t));
    let m2 = t2.map_values(|t: Seq<char>| ascii_lower(t));
    assert(m1 == m2);
    assert(t1.len() == m1.len() && t2.len() == m2.len());
    assert forall|k: int| 0 <= k < t1.len() implies ascii_lower(#[trigger] t1[k]) == ascii_lower(
        t2[k],
    ) by {
        assert(m1[k] == m2[k]);
    }
    lemma_resolve_lower(s1, t1, s2, t2);
}

/// Text that is empty, or holds a character that is neither a word character
/// nor a dash, is never rejected: it is taken verbatim as custom arguments.
pub proof fn lemma_other_text_is_custom(s: Seq<char>)
    requires
        s.len() == 0 || exists|i: int| 0 <= i < s.len() && !is_word_char(#[trigger] s[i]) && s[i] != '-',
    ensures
        spec_parse(s) == Ok::<PresetModel, PresetErrorModel>(PresetModel::Custom(Some(s))),
{
}

} // verus!
