//! The source language: how text falls into tokens and what each token
//! means.

use vstd::prelude::*;
use crate::op::Op;
use crate::text::{
    decimal, decimal_is_read_back, identifier, is_digit, is_space, literal, numeral,
    numeral_is_read_back,
};

verus! {

/// The tokens of `source`: its maximal runs of characters that are not
/// white space, in order. A character that is not white space extends the
/// last token if the character before it belongs to a token, and starts a
/// new token otherwise.
pub open spec fn tokens(source: Seq<char>) -> Seq<Seq<char>>
    decreases source.len(),
{
    if source.len() == 0 {
        Seq::empty()
    } else {
        let before = tokens(source.drop_last());
        let c = source.last();
        if is_space(c) {
            before
        } else if source.len() >= 2 && !is_space(source[source.len() - 2]) {
            before.drop_last().push(before.last().push(c))
        } else {
            before.push(seq![c])
        }
    }
}

/// The instruction that a token names outright.
pub open spec fn keyword(token: Seq<char>) -> Option<Op> {
    if token == "+"@ {
        Some(Op::Add)
    } else if token == "-"@ {
        Some(Op::Sub)
    } else if token == "*"@ {
        Some(Op::Mul)
    } else if token == "/"@ {
        Some(Op::Div)
    } else if token == "load"@ {
        Some(Op::Load)
    } else if token == "store"@ {
        Some(Op::Store)
    } else if token == "jmp"@ {
        Some(Op::Jmp)
    } else if token == "cjmp"@ {
        Some(Op::CJmp)
    } else if token == "."@ {
        Some(Op::Put)
    } else if token == "dup"@ {
        Some(Op::Dup)
    } else if token == "swap"@ {
        Some(Op::Swap)
    } else if token == "="@ {
        Some(Op::Eq)
    } else if token == "<"@ {
        Some(Op::Lt)
    } else if token == ">"@ {
        Some(Op::Gt)
    } else {
        None
    }
}

/// The instruction that a token stands for: a keyword; else an integer
/// literal; else a label definition, which is an identifier followed by `:`.
/// Any other token is malformed.
pub open spec fn translate(token: Seq<char>) -> Option<Op> {
    if keyword(token) is Some {
        keyword(token)
    } else if literal(token) is Some {
        Some(Op::Lit(literal(token)->0))
    } else if token.len() > 0 && token.last() == ':' && identifier(token.drop_last()) is Some {
        Some(Op::Label(identifier(token.drop_last())->0))
    } else {
        None
    }
}

/// A token that stands for no instruction, and its position among the
/// tokens of the source, counted from 0.
pub struct Malformed {
    pub index: nat,
    pub token: Seq<char>,
}

/// The instructions for the first `n` tokens, or the first malformed token
/// among them.
pub open spec fn translate_first(tokens: Seq<Seq<char>>, n: nat) -> Result<Seq<Op>, Malformed>
    decreases n,
{
    if n == 0 {
        Ok(Seq::empty())
    } else {
        match translate_first(tokens, (n - 1) as nat) {
            Ok(ops) => match translate(tokens[n - 1]) {
                Some(op) => Ok(ops.push(op)),
                None => Err(Malformed { index: (n - 1) as nat, token: tokens[n - 1] }),
            },
            Err(e) => Err(e),
        }
    }
}

/// The program that `source` denotes: one instruction for each token, in
/// order; or its first malformed token.
pub open spec fn compile(source: Seq<char>) -> Result<Seq<Op>, Malformed> {
    translate_first(tokens(source), tokens(source).len())
}

} // verus!

verus! {

/// The tokens that end before a white space character, or at the end of
/// the text, stay as they are however the text goes on: the tokens of the
/// first `i` characters are the first tokens of the first `n`.
pub proof fn tokens_of_prefix(source: Seq<char>, i: int, n: int)
    requires
        0 <= i <= n <= source.len(),
        i < source.len() ==> is_space(source[i]),
    ensures
        tokens(source.take(i)).len() <= tokens(source.take(n)).len(),
        tokens(source.take(n)).take(tokens(source.take(i)).len() as int) == tokens(source.take(i)),
        n > i && !is_space(source[n - 1]) ==> tokens(source.take(i)).len() < tokens(
            source.take(n),
        ).len(),
    decreases n,
{
    let short = tokens(source.take(i));
    let long = tokens(source.take(n));
    if n == i {
        assert(long.take(short.len() as int) =~= short);
    } else {
        tokens_of_prefix(source, i, n - 1);
        let before = tokens(source.take(n - 1));
        assert(source.take(n).drop_last() =~= source.take(n - 1));
        assert(before.take(short.len() as int) == short);
        assert(long.take(short.len() as int) =~= before.take(short.len() as int));
    }
}

/// The translation of the first `n` tokens depends on those tokens alone.
pub proof fn translate_first_of_prefix(a: Seq<Seq<char>>, b: Seq<Seq<char>>, n: nat)
    requires
        n <= a.len(),
        n <= b.len(),
        a.take(n as int) == b.take(n as int),
    ensures
        translate_first(a, n) == translate_first(b, n),
    decreases n,
{
    if n > 0 {
        assert(a.take(n - 1) =~= a.take(n as int).take(n - 1));
        assert(b.take(n - 1) =~= b.take(n as int).take(n - 1));
        translate_first_of_prefix(a, b, (n - 1) as nat);
        assert(a[n - 1] == a.take(n as int)[n - 1]);
        assert(b[n - 1] == b.take(n as int)[n - 1]);
    }
}

/// After the first malformed token nothing more is translated.
pub proof fn translate_first_stops(tokens: Seq<Seq<char>>, k: nat, n: nat)
    requires
        k <= n,
        translate_first(tokens, k) is Err,
    ensures
        translate_first(tokens, n) == translate_first(tokens, k),
    decreases n,
{
    if k < n {
        translate_first_stops(tokens, k, (n - 1) as nat);
    }
}

/// Whether `word` can be a token: it has a character, and none of its
/// characters is white space.
pub open spec fn is_word(word: Seq<char>) -> bool {
    word.len() > 0 && forall|i: int| 0 <= i < word.len() ==> !is_space(#[trigger] word[i])
}

/// A text that ends in a character of a token has a token.
pub proof fn tokens_of_unfinished_text(source: Seq<char>)
    requires
        source.len() > 0,
        !is_space(source.last()),
    ensures
        tokens(source).len() > 0,
{
}

/// A word is its own only token.
pub proof fn tokens_of_word(word: Seq<char>)
    requires
        is_word(word),
    ensures
        tokens(word) == seq![word],
    decreases word.len(),
{
    if word.len() == 1 {
        assert(tokens(word.drop_last()) =~= Seq::<Seq<char>>::empty());
        assert(seq![word.last()] =~= word);
    } else {
        tokens_of_word(word.drop_last());
        assert(word.drop_last().push(word.last()) =~= word);
        assert(seq![word.drop_last()].drop_last().push(word) =~= seq![word]);
    }
}

/// White space splits a text: the tokens of two texts joined by a white
/// space character are the tokens of the first followed by the tokens of
/// the second.
pub proof fn tokens_split_at_space(left: Seq<char>, c: char, right: Seq<char>)
    requires
        is_space(c),
    ensures
        tokens(left.push(c) + right) == tokens(left) + tokens(right),
    decreases right.len(),
{
    let whole = left.push(c) + right;
    if right.len() == 0 {
        assert(whole.drop_last() =~= left);
        assert(tokens(left) + tokens(right) =~= tokens(left));
    } else {
        let shorter = right.drop_last();
        tokens_split_at_space(left, c, shorter);
        assert(whole.drop_last() =~= left.push(c) + shorter);
        let before = tokens(left) + tokens(shorter);
        let x = right.last();
        assert(whole.last() == x);
        if is_space(x) {
        } else if shorter.len() > 0 && !is_space(shorter.last()) {
            tokens_of_unfinished_text(shorter);
            assert(whole[whole.len() - 2] == shorter.last());
            assert(right[right.len() - 2] == shorter.last());
            assert(before.drop_last().push(before.last().push(x)) =~= tokens(left) + tokens(
                shorter,
            ).drop_last().push(tokens(shorter).last().push(x)));
        } else {
            if shorter.len() > 0 {
                assert(whole[whole.len() - 2] == shorter.last());
                assert(right[right.len() - 2] == shorter.last());
            } else {
                assert(whole[whole.len() - 2] == c);
            }
            assert(before.push(seq![x]) =~= tokens(left) + tokens(shorter).push(seq![x]));
        }
    }
}

/// Every token is a word.
pub proof fn tokens_are_words(source: Seq<char>)
    ensures
        forall|i: int| 0 <= i < tokens(source).len() ==> is_word(#[trigger] tokens(source)[i]),
        source.len() > 0 && !is_space(source.last()) ==> tokens(source).len() > 0,
    decreases source.len(),
{
    if source.len() > 0 {
        tokens_are_words(source.drop_last());
        let before = tokens(source.drop_last());
        let c = source.last();
        assert forall|i: int| 0 <= i < tokens(source).len() implies is_word(
            #[trigger] tokens(source)[i],
        ) by {
            if !is_space(c) && i == tokens(source).len() - 1 {
                if source.len() >= 2 && !is_space(source[source.len() - 2]) {
                    let grown = before.last().push(c);
                    assert(is_word(before.last()));
                    assert forall|j: int| 0 <= j < grown.len() implies !is_space(
                        #[trigger] grown[j],
                    ) by {
                        if j < grown.len() - 1 {
                            assert(grown[j] == before.last()[j]);
                        }
                    }
                }
            } else {
                assert(tokens(source)[i] == before[i]);
            }
        }
    }
}

/// What `translate_first` gives, said outright. It succeeds with `ops` when
/// each of the `n` tokens stands for the instruction at its place in `ops`.
/// It fails at a token when that token stands for nothing and every token
/// before it stands for an instruction.
pub proof fn translate_first_is_pointwise(tokens: Seq<Seq<char>>, n: nat)
    ensures
        match translate_first(tokens, n) {
            Ok(ops) => ops.len() == n && forall|i: int|
                0 <= i < n ==> translate(#[trigger] tokens[i]) == Some(ops[i]),
            Err(e) => e.index < n && e.token == tokens[e.index as int] && translate(e.token)
                is None && forall|i: int|
                0 <= i < e.index ==> translate(#[trigger] tokens[i]) is Some,
        },
    decreases n,
{
    if n > 0 {
        translate_first_is_pointwise(tokens, (n - 1) as nat);
    }
}

/// The decimal form of a 64-bit integer is a word, and as a token it
/// stands for the literal of that integer.
pub proof fn decimal_is_a_literal(v: i64)
    ensures
        is_word(decimal(v as int)),
        translate(decimal(v as int)) == Some(Op::Lit(v)),
{
    let text = decimal(v as int);
    decimal_is_read_back(v);
    numeral_is_a_word(if v < 0 {
        (-v) as nat
    } else {
        v as nat
    });
    if v < 0 {
        let body = numeral((-v) as nat);
        assert(text.len() >= 2);
        assert(text[0] == '-');
        assert forall|i: int| 0 <= i < text.len() implies !is_space(#[trigger] text[i]) by {
            if i > 0 {
                assert(text[i] == body[i - 1]);
            }
        }
    } else {
        numeral_is_read_back(v as nat);
        assert(is_digit(text[0]));
    }
    reveal_strlit("+");
    reveal_strlit("-");
    reveal_strlit("*");
    reveal_strlit("/");
    reveal_strlit("load");
    reveal_strlit("store");
    reveal_strlit("jmp");
    reveal_strlit("cjmp");
    reveal_strlit(".");
    reveal_strlit("dup");
    reveal_strlit("swap");
    reveal_strlit("=");
    reveal_strlit("<");
    reveal_strlit(">");
    assert(keyword(text) is None);
}

/// A numeral has no white space in it.
pub proof fn numeral_is_a_word(n: nat)
    ensures
        is_word(numeral(n)),
{
    numeral_is_read_back(n);
    let s = numeral(n);
    assert forall|i: int| 0 <= i < s.len() implies !is_space(#[trigger] s[i]) by {
        assert(is_digit(s[i]));
    }
}

/// The source that holds the decimal forms of `a` and `b` and a `+`, with
/// one space between them, compiles to `Lit(a), Lit(b), Add`.
pub proof fn sum_compiles(a: i64, b: i64)
    ensures
        compile(decimal(a as int) + " "@ + decimal(b as int) + " +"@) == Ok::<
            Seq<Op>,
            Malformed,
        >(seq![Op::Lit(a), Op::Lit(b), Op::Add]),
{
    let first = decimal(a as int);
    let second = decimal(b as int);
    let plus = seq!['+'];
    let source = first + " "@ + second + " +"@;
    reveal_strlit(" ");
    reveal_strlit(" +");
    reveal_strlit("+");
    decimal_is_a_literal(a);
    decimal_is_a_literal(b);
    assert(is_word(plus));
    tokens_of_word(first);
    tokens_of_word(second);
    tokens_of_word(plus);
    tokens_split_at_space(second, ' ', plus);
    tokens_split_at_space(first, ' ', second.push(' ') + plus);
    assert(source =~= first.push(' ') + (second.push(' ') + plus));
    let all = tokens(source);
    assert(all =~= seq![first, second, plus]);
    assert("+"@ =~= plus);
    assert(translate(plus) == Some(Op::Add));
    translate_first_is_pointwise(all, 3);
    match translate_first(all, 3) {
        Ok(ops) => {
            assert(translate(all[0]) == Some(ops[0]));
            assert(translate(all[1]) == Some(ops[1]));
            assert(translate(all[2]) == Some(ops[2]));
            assert(ops =~= seq![Op::Lit(a), Op::Lit(b), Op::Add]);
        },
        Err(e) => {
            assert(translate(all[e.index as int]) is None);
        },
    }
}

} // verus!
