//! The compiler from source text to instructions.

use vstd::prelude::*;
use vstd::string::StrSliceExecFns;
use crate::grammar::{
    compile, keyword, tokens, tokens_of_prefix, translate, translate_first,
    translate_first_of_prefix, translate_first_stops, Malformed,
};
use crate::op::Op;
use crate::text::{is_space, is_whitespace, read_identifier, read_literal};

verus! {

/// A token that stands for no instruction.
#[derive(Debug, PartialEq, Eq)]
pub struct CompileError {
    /// The position of the token among the tokens of the source, from 0.
    pub index: usize,
    /// The token itself.
    pub token: String,
}

impl View for CompileError {
    type V = Malformed;

    open spec fn view(&self) -> Malformed {
        Malformed { index: self.index as nat, token: self.token@ }
    }
}

/// The compiler. It has no state: everything it does is a function of the
/// source text.
pub struct Lexer {}

impl Lexer {
    /// Whether `word` is spelled exactly as `name`.
    fn spells(word: &Vec<char>, name: &str) -> (r: bool)
        ensures
            r == (word@ == name@),
    {
        let n: usize = name.unicode_len();
        if word.len() != n {
            return false;
        }
        let mut i: usize = 0;
        while i < n
            invariant
                i <= n,
                n == word.len(),
                n == name@.len(),
                forall|j: int| 0 <= j < i ==> word@[j] == name@[j],
            decreases n - i,
        {
            if word[i] != name.get_char(i) {
                return false;
            }
            i += 1;
        }
        assert(word@ =~= name@);
        true
    }

    /// The instruction that `word` names outright.
    fn keyword(word: &Vec<char>) -> (r: Option<Op>)
        ensures
            r == keyword(word@),
    {
        if Lexer::spells(word, "+") {
            Some(Op::Add)
        } else if Lexer::spells(word, "-") {
            Some(Op::Sub)
        } else if Lexer::spells(word, "*") {
            Some(Op::Mul)
        } else if Lexer::spells(word, "/") {
            Some(Op::Div)
        } else if Lexer::spells(word, "load") {
            Some(Op::Load)
        } else if Lexer::spells(word, "store") {
            Some(Op::Store)
        } else if Lexer::spells(word, "jmp") {
            Some(Op::Jmp)
        } else if Lexer::spells(word, "cjmp") {
            Some(Op::CJmp)
        } else if Lexer::spells(word, ".") {
            Some(Op::Put)
        } else if Lexer::spells(word, "dup") {
            Some(Op::Dup)
        } else if Lexer::spells(word, "swap") {
            Some(Op::Swap)
        } else if Lexer::spells(word, "=") {
            Some(Op::Eq)
        } else if Lexer::spells(word, "<") {
            Some(Op::Lt)
        } else if Lexer::spells(word, ">") {
            Some(Op::Gt)
        } else {
            None
        }
    }

    /// The instruction that the token `word` stands for, if it stands for
    /// one.
    pub fn translate(word: &Vec<char>) -> (r: Option<Op>)
        ensures
            r == translate(word@),
    {
        if let Some(op) = Lexer::keyword(word) {
            return Some(op);
        }
        if let Some(value) = read_literal(word) {
            return Some(Op::Lit(value));
        }
        let n: usize = word.len();
        if n > 0 && word[n - 1] == ':' {
            assert(word@.take(n - 1) =~= word@.drop_last());
            match read_identifier(word, n - 1) {
                Some(id) => Some(Op::Label(id)),
                None => None,
            }
        } else {
            None
        }
    }

    /// Compiles `program`: splits it at white space and translates each
    /// token, in order. The first token that stands for no instruction ends
    /// the compilation and is returned as the error.
    pub fn codegen(program: &str) -> (r: Result<Vec<Op>, CompileError>)
        ensures
            match r {
                Ok(ops) => compile(program@) == Ok::<Seq<Op>, Malformed>(ops@),
                Err(e) => compile(program@) == Err::<Seq<Op>, Malformed>(e@),
            },
    {
        let total: usize = program.unicode_len();
        let mut ops: Vec<Op> = Vec::new();
        let mut word: Vec<char> = Vec::new();
        let mut seen: usize = 0;
        let ghost mut done: Seq<Seq<char>> = Seq::empty();
        assert(program@.take(0) =~= Seq::<char>::empty());
        for c in it: program.chars()
            invariant
                it.seq() == program@,
                total == program@.len(),
                seen == it.index(),
                word@.len() <= seen,
                word@ == program@.subrange(seen - word@.len(), seen as int),
                word@.len() > 0 <==> seen > 0 && !is_space(program@[seen - 1]),
                tokens(program@.take(seen as int)) == if word@.len() > 0 {
                    done.push(word@)
                } else {
                    done
                },
                translate_first(done, done.len()) == Ok::<Seq<Op>, Malformed>(ops@),
                ops@.len() == done.len(),
        {
            let ghost before = tokens(program@.take(seen as int));
            let ghost longer = program@.take(seen + 1);
            proof {
                assert(longer.drop_last() =~= program@.take(seen as int));
                assert(longer.last() == c);
                if word@.len() > 0 {
                    assert(before.drop_last() =~= done);
                    assert(before.last() == word@);
                    assert(longer[seen - 1] == program@[seen - 1]);
                } else {
                    assert(word@.push(c) =~= seq![c]);
                }
            }
            if is_whitespace(c) {
                if word.len() > 0 {
                    match Lexer::close(program, &mut ops, &word, seen, Ghost(done)) {
                        Some(e) => {
                            return Err(e);
                        },
                        None => {},
                    }
                    proof {
                        done = done.push(word@);
                    }
                    word = Vec::new();
                }
            } else {
                word.push(c);
            }
            seen += 1;
            proof {
                assert(word@ =~= program@.subrange(seen - word@.len(), seen as int));
            }
        }
        assert(program@.take(seen as int) =~= program@);
        if word.len() > 0 {
            match Lexer::close(program, &mut ops, &word, seen, Ghost(done)) {
                Some(e) => {
                    return Err(e);
                },
                None => {},
            }
        }
        Ok(ops)
    }

    /// Translates the token `word`, which ends before the character at
    /// `end`, and appends its instruction to `ops`. If the token is
    /// malformed, returns the error that the compilation ends with.
    fn close(
        program: &str,
        ops: &mut Vec<Op>,
        word: &Vec<char>,
        end: usize,
        Ghost(done): Ghost<Seq<Seq<char>>>,
    ) -> (r: Option<CompileError>)
        requires
            0 < word@.len() <= end <= program@.len(),
            word@ == program@.subrange(end - word@.len(), end as int),
            end < program@.len() ==> is_space(program@[end as int]),
            tokens(program@.take(end as int)) == done.push(word@),
            translate_first(done, done.len()) == Ok::<Seq<Op>, Malformed>(old(ops)@),
            old(ops)@.len() == done.len(),
        ensures
            match r {
                Some(e) => compile(program@) == Err::<Seq<Op>, Malformed>(e@),
                None => translate_first(done.push(word@), done.len() + 1) == Ok::<
                    Seq<Op>,
                    Malformed,
                >(final(ops)@) && final(ops)@.len() == done.len() + 1,
            },
    {
        let ghost closed = done.push(word@);
        proof {
            assert(closed.take(done.len() as int) =~= done);
            assert(done.take(done.len() as int) =~= done);
            translate_first_of_prefix(closed, done, done.len());
        }
        match Lexer::translate(word) {
            Some(op) => {
                ops.push(op);
                None
            },
            None => {
                let text = program.substring_char(end - word.len(), end);
                let e = CompileError { index: ops.len(), token: text.to_owned() };
                proof {
                    let all = tokens(program@);
                    assert(program@.take(program@.len() as int) =~= program@);
                    tokens_of_prefix(program@, end as int, program@.len() as int);
                    assert(closed.take(closed.len() as int) =~= closed);
                    translate_first_of_prefix(all, closed, closed.len());
                    translate_first_stops(all, closed.len(), all.len());
                }
                Some(e)
            },
        }
    }
}

} // verus!
