//! Laws of the language, stated and proved once and for all: the
//! literal round trip, the scoping discipline, and the permanence of
//! deleted store indices. Each law is stated over the same models the
//! executable functions' contracts use.

use vstd::prelude::*;

use crate::expression::{ExprV, ValueV};
use crate::numbers::{digits_end_spec, is_digit, is_integer_numeral, numeral_value};
use crate::operators::Builtin;
use crate::parser::{
    is_word_char, lex_from, number_end, parse_from, quote_end, skip_ws, word_end, TokenV,
};
use crate::scope::{evolves, lemma_evolves_trans, lookup_in, owner_in, Scope};

verus! {

/// A run of digits reaches the end of the text.
proof fn lemma_digits_end_full(s: Seq<char>, i: int)
    requires
        0 <= i <= s.len(),
        forall|k: int| i <= k < s.len() ==> is_digit(#[trigger] s[k]),
    ensures
        digits_end_spec(s, i) == s.len(),
    decreases s.len() - i,
{
    if i < s.len() {
        lemma_digits_end_full(s, i + 1);
    }
}

/// A run of word characters reaches the end of the text.
proof fn lemma_word_end_full(s: Seq<char>, i: int)
    requires
        0 <= i <= s.len(),
        forall|k: int| i <= k < s.len() ==> is_word_char(#[trigger] s[k]),
    ensures
        word_end(s, i) == s.len(),
    decreases s.len() - i,
{
    if i < s.len() {
        lemma_word_end_full(s, i + 1);
    }
}

/// The quote scan finds the closing quote.
proof fn lemma_quote_scan(s: Seq<char>, j: int, q: int)
    requires
        0 <= j <= q < s.len(),
        s[q] as u32 == 34,
        forall|k: int| j <= k < q ==> (#[trigger] s[k]) as u32 != 34 && s[k] as u32 != 10,
    ensures
        quote_end(s, j) == q,
    decreases q - j,
{
    if j < q {
        lemma_quote_scan(s, j + 1, q);
    }
}

/// Parsing a stream of one literal token yields one literal expression.
proof fn lemma_parse_single_literal(
    toks: Seq<(TokenV, int)>,
    v: ValueV,
    ops: Map<Seq<char>, Builtin>,
)
    requires
        toks.len() == 1,
        match toks[0].0 {
            TokenV::Number(n) => v == ValueV::Number(n),
            TokenV::Text(t) => v == ValueV::Str(t),
            TokenV::Boolean(b) => v == ValueV::Boolean(b),
            _ => false,
        },
    ensures
        parse_from(toks, 0, Seq::empty(), Seq::empty(), ops)
            == Ok::<Seq<ExprV>, crate::parser::ParseErrV>(seq![ExprV::Value(v)]),
{
    let pushed = Seq::<ExprV>::empty().push(ExprV::Value(v));
    assert(parse_from(toks, 1, pushed, Seq::empty(), ops)
        == Ok::<Seq<ExprV>, crate::parser::ParseErrV>(pushed));
    assert(pushed =~= seq![ExprV::Value(v)]);
}

/// Law (literal round trip, numbers): a source text that is exactly an
/// integer numeral lexes to the one number token carrying the
/// numeral's value, and parses to the one literal expression carrying
/// that value. Evaluating a literal expression yields exactly its
/// value and changes nothing: that is the evaluator's own contract.
pub proof fn lemma_number_literal_round_trip(s: Seq<char>, ops: Map<Seq<char>, Builtin>)
    requires
        is_integer_numeral(s),
        i64::MIN <= numeral_value(s) <= i64::MAX,
    ensures
        lex_from(s, 0) == Ok::<Seq<(TokenV, int)>, Seq<char>>(
            seq![(TokenV::Number(numeral_value(s)), 0)],
        ),
        parse_from(
            seq![(TokenV::Number(numeral_value(s)), 0)],
            0,
            Seq::empty(),
            Seq::empty(),
            ops,
        ) == Ok::<Seq<ExprV>, crate::parser::ParseErrV>(
            seq![ExprV::Value(ValueV::Number(numeral_value(s)))],
        ),
{
    let digits_from: int = if s[0] == '-' {
        1
    } else {
        0
    };
    assert(forall|k: int| digits_from <= k < s.len() ==> is_digit(#[trigger] s[k])) by {
        if s[0] == '-' {
            assert(forall|k: int| 0 <= k < s.skip(1).len() ==> is_digit(#[trigger] s.skip(1)[k]));
            assert(forall|k: int|
                1 <= k < s.len() ==> is_digit(#[trigger] s[k]) == is_digit(s.skip(1)[k - 1]));
        }
    }
    lemma_digits_end_full(s, digits_from);
    assert(skip_ws(s, 0) == 0);
    assert(number_end(s, 0) == s.len());
    assert(s.subrange(0, s.len() as int) =~= s);
    assert(skip_ws(s, s.len() as int) == s.len());
    assert(lex_from(s, s.len() as int) == Ok::<Seq<(TokenV, int)>, Seq<char>>(Seq::empty()));
    assert(seq![(TokenV::Number(numeral_value(s)), 0int)] + Seq::<(TokenV, int)>::empty()
        =~= seq![(TokenV::Number(numeral_value(s)), 0int)]);
    let toks = seq![(TokenV::Number(numeral_value(s)), 0int)];
    lemma_parse_single_literal(toks, ValueV::Number(numeral_value(s)), ops);
}

/// Law (literal round trip, strings): a source text that is exactly a
/// quoted string literal, whose contents hold no quote and no newline,
/// lexes to the one text token carrying those contents, and parses to
/// the one literal expression carrying them.
pub proof fn lemma_string_literal_round_trip(t: Seq<char>, ops: Map<Seq<char>, Builtin>)
    requires
        forall|k: int| 0 <= k < t.len() ==> (#[trigger] t[k]) as u32 != 34 && t[k] as u32 != 10,
    ensures
        ({
            let s = seq!['"'] + t + seq!['"'];
            lex_from(s, 0) == Ok::<Seq<(TokenV, int)>, Seq<char>>(seq![(TokenV::Text(t), 0)])
                && parse_from(
                seq![(TokenV::Text(t), 0)],
                0,
                Seq::empty(),
                Seq::empty(),
                ops,
            ) == Ok::<Seq<ExprV>, crate::parser::ParseErrV>(seq![ExprV::Value(ValueV::Str(t))])
        }),
{
    let s = seq!['"'] + t + seq!['"'];
    assert(s.len() == t.len() + 2);
    assert(s[0] as u32 == 34);
    assert(s[t.len() as int + 1] as u32 == 34);
    assert(forall|k: int| 1 <= k < t.len() as int + 1 ==> (#[trigger] s[k]) == t[k - 1]);
    assert(skip_ws(s, 0) == 0);
    lemma_quote_scan(s, 1, t.len() as int + 1);
    assert(s.subrange(1, t.len() as int + 1) =~= t);
    assert(skip_ws(s, s.len() as int) == s.len());
    assert(lex_from(s, s.len() as int) == Ok::<Seq<(TokenV, int)>, Seq<char>>(Seq::empty()));
    assert(seq![(TokenV::Text(t), 0int)] + Seq::<(TokenV, int)>::empty() =~= seq![
        (TokenV::Text(t), 0int),
    ]);
    lemma_parse_single_literal(seq![(TokenV::Text(t), 0int)], ValueV::Str(t), ops);
}

/// Law (literal round trip, booleans): the source `True` lexes to the
/// one boolean token `true` and parses to the one literal expression
/// `Boolean(true)`; likewise `False`.
pub proof fn lemma_boolean_literal_round_trip(ops: Map<Seq<char>, Builtin>)
    ensures
        lex_from("True"@, 0) == Ok::<Seq<(TokenV, int)>, Seq<char>>(
            seq![(TokenV::Boolean(true), 0)],
        ),
        lex_from("False"@, 0) == Ok::<Seq<(TokenV, int)>, Seq<char>>(
            seq![(TokenV::Boolean(false), 0)],
        ),
        parse_from(seq![(TokenV::Boolean(true), 0)], 0, Seq::empty(), Seq::empty(), ops)
            == Ok::<Seq<ExprV>, crate::parser::ParseErrV>(
            seq![ExprV::Value(ValueV::Boolean(true))],
        ),
        parse_from(seq![(TokenV::Boolean(false), 0)], 0, Seq::empty(), Seq::empty(), ops)
            == Ok::<Seq<ExprV>, crate::parser::ParseErrV>(
            seq![ExprV::Value(ValueV::Boolean(false))],
        ),
{
    reveal_strlit("True");
    reveal_strlit("False");
    let st = "True"@;
    let sf = "False"@;
    assert(st.len() == 4 && sf.len() == 5);
    assert(forall|k: int| 0 <= k < st.len() ==> is_word_char(#[trigger] st[k]));
    assert(forall|k: int| 0 <= k < sf.len() ==> is_word_char(#[trigger] sf[k]));
    lemma_word_end_full(st, 0);
    lemma_word_end_full(sf, 0);
    assert(skip_ws(st, 0) == 0 && skip_ws(sf, 0) == 0);
    assert(number_end(st, 0) == 0 && number_end(sf, 0) == 0);
    assert(st.subrange(0, 4) =~= st);
    assert(sf.subrange(0, 5) =~= sf);
    assert(skip_ws(st, 4) == 4 && skip_ws(sf, 5) == 5);
    assert(lex_from(st, 4) == Ok::<Seq<(TokenV, int)>, Seq<char>>(Seq::empty()));
    assert(lex_from(sf, 5) == Ok::<Seq<(TokenV, int)>, Seq<char>>(Seq::empty()));
    assert(seq![(TokenV::Boolean(true), 0int)] + Seq::<(TokenV, int)>::empty() =~= seq![
        (TokenV::Boolean(true), 0int),
    ]);
    assert(seq![(TokenV::Boolean(false), 0int)] + Seq::<(TokenV, int)>::empty() =~= seq![
        (TokenV::Boolean(false), 0int),
    ]);
    lemma_parse_single_literal(
        seq![(TokenV::Boolean(true), 0int)],
        ValueV::Boolean(true),
        ops,
    );
    lemma_parse_single_literal(
        seq![(TokenV::Boolean(false), 0int)],
        ValueV::Boolean(false),
        ops,
    );
}

/// Law (scoping): a binding defined in a call's local frame shadows
/// the chain while the frame is live, and is invisible once the frame
/// is discarded; every other name resolves as it did before the call.
pub proof fn lemma_local_define_invisible(
    frames: Seq<Map<Seq<char>, ValueV>>,
    overlay: Map<Seq<char>, ValueV>,
    name: Seq<char>,
    v: ValueV,
)
    ensures
        lookup_in(frames.push(overlay.insert(name, v)), name) == Some(v),
        frames.push(overlay.insert(name, v)).drop_last() == frames,
        lookup_in(frames.push(overlay.insert(name, v)).drop_last(), name) == lookup_in(
            frames,
            name,
        ),
        forall|other: Seq<char>|
            !overlay.insert(name, v).contains_key(other) ==> lookup_in(
                frames.push(overlay.insert(name, v)),
                other,
            ) == #[trigger] lookup_in(frames, other),
{
    let during = frames.push(overlay.insert(name, v));
    assert(during.last() == overlay.insert(name, v));
    assert(during.last().contains_key(name));
    assert(during.drop_last() =~= frames);
    assert forall|other: Seq<char>| !overlay.insert(name, v).contains_key(other) implies lookup_in(
        during,
        other,
    ) == #[trigger] lookup_in(frames, other) by {
        assert(!during.last().contains_key(other));
        crate::scope::lemma_owner_in_props(frames, other);
        assert(owner_in(during, other) == owner_in(frames, other));
    }
}

/// Law (permanence of deletion): once a store index is dead, that is,
/// the counter has passed it and no live entry carries it, no later
/// evaluation step brings it back to life; in particular a function
/// definition registered after a deletion never reuses the deleted
/// index. Every verified evaluation step promises `evolves`.
pub proof fn lemma_no_resurrection(a: Scope, b: Scope, c: Scope, i: usize)
    requires
        evolves(a, b),
        evolves(b, c),
        i as nat <= a.counter(),
        !a.functions().contains_key(i),
    ensures
        !c.functions().contains_key(i),
{
    lemma_evolves_trans(a, b, c);
}

} // verus!
