//! Phrases: token sequences joined by a single separator.
use vstd::prelude::*;
use vstd::string::*;
use crate::error::Num2Err;
use crate::lang::lexicon::SEPARATOR;

verus! {

/// The texts of a list of words.
pub open spec fn words(tokens: Seq<&'static str>) -> Seq<Seq<char>> {
    Seq::new(tokens.len(), |i: int| tokens[i]@)
}

/// The phrase of a token sequence: the tokens in order, with one separator
/// between each two neighbours and none at either end.
pub open spec fn join(tokens: Seq<Seq<char>>) -> Seq<char>
    decreases tokens.len(),
{
    if tokens.len() == 0 {
        Seq::empty()
    } else if tokens.len() == 1 {
        tokens[0]
    } else {
        join(tokens.drop_last()) + SEPARATOR@ + tokens.last()
    }
}

/// What a conversion result says, as text.
pub open spec fn outcome(result: Result<String, Num2Err>) -> Result<Seq<char>, Num2Err> {
    match result {
        Ok(phrase) => Ok(phrase@),
        Err(e) => Err(e),
    }
}

/// What a token-level result says, as texts.
pub open spec fn token_outcome(result: Result<Vec<&'static str>, Num2Err>) -> Result<
    Seq<Seq<char>>,
    Num2Err,
> {
    match result {
        Ok(tokens) => Ok(words(tokens@)),
        Err(e) => Err(e),
    }
}

/// The phrase of a token-level result.
pub open spec fn joined(result: Result<Seq<Seq<char>>, Num2Err>) -> Result<Seq<char>, Num2Err> {
    match result {
        Ok(tokens) => Ok(join(tokens)),
        Err(e) => Err(e),
    }
}

/// Joins the tokens into one phrase.
pub fn join_words(tokens: &Vec<&'static str>) -> (phrase: String)
    ensures
        phrase@ == join(words(tokens@)),
{
    let mut phrase = String::new();
    let mut i: usize = 0;
    while i < tokens.len()
        invariant
            i <= tokens.len(),
            phrase@ == join(words(tokens@.take(i as int))),
        decreases tokens.len() - i,
    {
        proof {
            let before = words(tokens@.take(i as int));
            let after = words(tokens@.take(i as int + 1));
            assert(after.drop_last() =~= before);
            assert(after.last() == tokens@[i as int]@);
        }
        if i > 0 {
            phrase.append(SEPARATOR);
        }
        phrase.append(tokens[i]);
        i = i + 1;
    }
    proof {
        assert(tokens@.take(tokens.len() as int) =~= tokens@);
    }
    phrase
}

/// Joining a token list that starts with `first` puts `first` and a
/// separator in front of the phrase of the rest.
pub proof fn lemma_join_first(first: Seq<char>, rest: Seq<Seq<char>>)
    requires
        rest.len() > 0,
    ensures
        join(seq![first] + rest) == first + SEPARATOR@ + join(rest),
    decreases rest.len(),
{
    let all = seq![first] + rest;
    assert(all.last() == rest.last());
    if rest.len() == 1 {
        assert(all.drop_last() =~= seq![first]);
        assert(join(all.drop_last()) == first);
    } else {
        assert(all.drop_last() =~= seq![first] + rest.drop_last());
        lemma_join_first(first, rest.drop_last());
        assert(join(all) =~= first + SEPARATOR@ + join(rest));
    }
}

/// Joining two non-empty token lists one after the other puts a separator
/// between their phrases.
pub proof fn lemma_join_concat(left: Seq<Seq<char>>, right: Seq<Seq<char>>)
    requires
        left.len() > 0,
        right.len() > 0,
    ensures
        join(left + right) == join(left) + SEPARATOR@ + join(right),
    decreases right.len(),
{
    let all = left + right;
    assert(all.last() == right.last());
    if right.len() == 1 {
        assert(all.drop_last() =~= left);
    } else {
        assert(all.drop_last() =~= left + right.drop_last());
        lemma_join_concat(left, right.drop_last());
        assert(join(all) =~= join(left) + SEPARATOR@ + join(right));
    }
}

/// Appending one token to a non-empty token list appends a separator and
/// the token to its phrase.
pub proof fn lemma_join_push(tokens: Seq<Seq<char>>, last: Seq<char>)
    requires
        tokens.len() > 0,
    ensures
        join(tokens.push(last)) == join(tokens) + SEPARATOR@ + last,
{
    assert(tokens.push(last).drop_last() =~= tokens);
}

} // verus!
