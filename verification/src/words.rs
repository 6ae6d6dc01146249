//! Words: the runs of a text that hold no white space.

use vstd::prelude::*;
use vstd::string::StrSliceExecFns;

use crate::text::chars_of;
use crate::tokens::Token;

verus! {

/// Whether `c` is white space, as Unicode defines it.
pub open spec fn is_space(c: char) -> bool {
    ||| '\u{9}' <= c <= '\u{d}'
    ||| c == ' '
    ||| c == '\u{85}'
    ||| c == '\u{a0}'
    ||| c == '\u{1680}'
    ||| '\u{2000}' <= c <= '\u{200a}'
    ||| c == '\u{2028}'
    ||| c == '\u{2029}'
    ||| c == '\u{202f}'
    ||| c == '\u{205f}'
    ||| c == '\u{3000}'
}

/// Whether `c` is white space.
pub fn is_whitespace(c: char) -> (r: bool)
    ensures
        r == is_space(c),
{
    ('\u{9}' <= c && c <= '\u{d}') || c == ' ' || c == '\u{85}' || c == '\u{a0}' || c == '\u{1680}'
        || ('\u{2000}' <= c && c <= '\u{200a}') || c == '\u{2028}' || c == '\u{2029}' || c
        == '\u{202f}' || c == '\u{205f}' || c == '\u{3000}'
}

/// The length of the word at the start of `s`: of its longest prefix without
/// white space.
pub open spec fn word_len(s: Seq<char>) -> int
    decreases s.len(),
{
    if s.len() == 0 || is_space(s[0]) {
        0
    } else {
        1 + word_len(s.drop_first())
    }
}

/// The words of `s`, in order: its longest runs without white space.
pub open spec fn words(s: Seq<char>) -> Seq<Seq<char>>
    decreases s.len(),
{
    if s.len() == 0 {
        Seq::empty()
    } else if is_space(s[0]) {
        words(s.drop_first())
    } else {
        proof {
            lemma_word_len(s);
        }
        seq![s.take(word_len(s))] + words(s.skip(word_len(s)))
    }
}

/// The word at the start of a text ends within the text; it holds no white
/// space, and white space or the end of the text follows it.
pub proof fn lemma_word_len(s: Seq<char>)
    ensures
        0 <= word_len(s) <= s.len(),
        s.len() > 0 && !is_space(s[0]) ==> word_len(s) > 0,
        forall|j: int| 0 <= j < word_len(s) ==> !is_space(#[trigger] s[j]),
        word_len(s) < s.len() ==> is_space(s[word_len(s)]),
    decreases s.len(),
{
    if s.len() > 0 && !is_space(s[0]) {
        let rest = s.drop_first();
        lemma_word_len(rest);
        assert forall|j: int| 0 <= j < word_len(s) implies !is_space(#[trigger] s[j]) by {
            if j > 0 {
                assert(s[j] == rest[j - 1]);
            }
        }
        if word_len(s) < s.len() {
            assert(s[word_len(s)] == rest[word_len(rest)]);
        }
    }
}

/// The tokens that a sequence of words names; the first word that is no
/// token's literal is the error.
pub open spec fn tokens_of(words: Seq<Seq<char>>) -> Result<Seq<Token>, Seq<char>>
    decreases words.len(),
{
    if words.len() == 0 {
        Ok(Seq::empty())
    } else {
        match Token::of_literal(words[0]) {
            None => Err(words[0]),
            Some(token) => match tokens_of(words.drop_first()) {
                Ok(rest) => Ok(seq![token] + rest),
                Err(word) => Err(word),
            },
        }
    }
}

/// The tokens that the text `s` declares: those that its words name, in
/// order. The first word that is no token's literal is the error.
pub open spec fn declared_tokens(s: Seq<char>) -> Result<Seq<Token>, Seq<char>> {
    tokens_of(words(s))
}

/// `rest` with the tokens `done` in front.
pub open spec fn after(done: Seq<Token>, rest: Result<Seq<Token>, Seq<char>>) -> Result<
    Seq<Token>,
    Seq<char>,
> {
    match rest {
        Ok(tokens) => Ok(done + tokens),
        Err(word) => Err(word),
    }
}

/// Reads the tokens that `text` declares.
pub fn read_tokens(text: &str) -> (r: Result<Vec<Token>, String>)
    ensures
        match declared_tokens(text@) {
            Ok(tokens) => r matches Ok(read) && read@ == tokens,
            Err(word) => r matches Err(rejected) && rejected@ == word,
        },
{
    let chars = chars_of(text);
    let ghost s = chars@;
    let mut out: Vec<Token> = Vec::new();
    let mut i: usize = 0;
    proof {
        assert(s.skip(0) =~= s);
        assert(out@ + Seq::<Token>::empty() =~= out@);
    }
    while i < chars.len()
        invariant
            i <= chars.len(),
            s == chars@,
            s == text@,
            declared_tokens(s) == after(out@, tokens_of(words(s.skip(i as int)))),
        decreases chars.len() - i,
    {
        let ghost rest = s.skip(i as int);
        proof {
            assert(rest[0] == s[i as int]);
            assert(rest.drop_first() =~= s.skip(i + 1));
        }
        if is_whitespace(chars[i]) {
            i += 1;
        } else {
            let start = i;
            let mut j: usize = i + 1;
            proof {
                assert(rest.drop_first() =~= s.skip(j as int));
            }
            while j < chars.len() && !is_whitespace(chars[j])
                invariant
                    start < j <= chars.len(),
                    s == chars@,
                    rest == s.skip(start as int),
                    word_len(rest) == (j - start) + word_len(s.skip(j as int)),
                decreases chars.len() - j,
            {
                proof {
                    let tail = s.skip(j as int);
                    assert(tail[0] == s[j as int]);
                    assert(tail.drop_first() =~= s.skip(j + 1));
                }
                j += 1;
            }
            proof {
                let tail = s.skip(j as int);
                if j < chars.len() {
                    assert(tail[0] == s[j as int]);
                }
                assert(word_len(tail) == 0);
                assert(word_len(rest) == j - start);
                assert(rest.take(j - start) =~= s.subrange(start as int, j as int));
                assert(rest.skip(j - start) =~= s.skip(j as int));
            }
            match Token::from_chars(&chars, start, j) {
                Some(token) => {
                    proof {
                        let found = tokens_of(words(s.skip(j as int)));
                        let word = s.subrange(start as int, j as int);
                        let all = seq![word] + words(s.skip(j as int));
                        assert(all[0] == word);
                        assert(all.drop_first() =~= words(s.skip(j as int)));
                        match found {
                            Ok(more) => {
                                assert(out@ + (seq![token] + more) =~= out@.push(token) + more);
                            },
                            Err(_) => {},
                        }
                    }
                    out.push(token);
                    i = j;
                },
                None => {
                    proof {
                        let word = s.subrange(start as int, j as int);
                        let all = seq![word] + words(s.skip(j as int));
                        assert(all[0] == word);
                    }
                    return Err(text.substring_char(start, j).to_owned());
                },
            }
        }
    }
    proof {
        assert(s.skip(i as int).len() == 0);
        assert(out@ + Seq::<Token>::empty() =~= out@);
    }
    Ok(out)
}

} // verus!
