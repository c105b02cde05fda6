//! The environment handed to the child: parsing `KEY=VALUE` tokens into a
//! mapping in which every name occurs once.

use vstd::prelude::*;
use vstd::string::{StrSliceExecFns, StringExecFns};
use crate::text::{
    chars_of, first_index, lemma_first_index, lemma_first_index_is, split_whitespace, token_views,
    tokens,
};

verus! {

/// The mapping that a list of name/value pairs denotes: a later pair
/// overwrites an earlier one of the same name.
pub open spec fn pairs_map(pairs: Seq<(String, String)>) -> Map<Seq<char>, Seq<char>>
    decreases pairs.len(),
{
    if pairs.len() == 0 {
        Map::empty()
    } else {
        pairs_map(pairs.drop_last()).insert(pairs.last().0@, pairs.last().1@)
    }
}

/// Whether no two pairs carry the same name.
pub open spec fn distinct_names(pairs: Seq<(String, String)>) -> bool {
    forall|i: int, j: int| 0 <= i < j < pairs.len() ==> pairs[i].0@ != pairs[j].0@
}

/// With distinct names, the mapping holds exactly the listed pairs.
pub proof fn lemma_pairs_map(pairs: Seq<(String, String)>)
    requires
        distinct_names(pairs),
    ensures
        forall|i: int|
            0 <= i < pairs.len() ==> pairs_map(pairs).contains_pair(
                #[trigger] pairs[i].0@,
                pairs[i].1@,
            ),
        forall|k: Seq<char>| #[trigger]
            pairs_map(pairs).dom().contains(k) ==> exists|i: int|
                0 <= i < pairs.len() && pairs[i].0@ == k,
    decreases pairs.len(),
{
    if pairs.len() > 0 {
        let init = pairs.drop_last();
        lemma_pairs_map(init);
        assert forall|i: int| 0 <= i < pairs.len() implies pairs_map(pairs).contains_pair(
            #[trigger] pairs[i].0@,
            pairs[i].1@,
        ) by {
            if i < pairs.len() - 1 {
                assert(init[i] == pairs[i]);
            }
        }
        assert forall|k: Seq<char>| #[trigger]
            pairs_map(pairs).dom().contains(k) implies exists|i: int|
            0 <= i < pairs.len() && pairs[i].0@ == k by {
            if k != pairs.last().0@ {
                assert(pairs_map(init).dom().contains(k));
            }
        }
    }
}

/// Replacing the value of a listed name changes the mapping at that name
/// and nowhere else.
pub proof fn lemma_pairs_map_update(pairs: Seq<(String, String)>, i: int, pair: (String, String))
    requires
        distinct_names(pairs),
        0 <= i < pairs.len(),
        pairs[i].0@ == pair.0@,
    ensures
        distinct_names(pairs.update(i, pair)),
        pairs_map(pairs.update(i, pair)) == pairs_map(pairs).insert(pair.0@, pair.1@),
    decreases pairs.len(),
{
    let updated = pairs.update(i, pair);
    if i == pairs.len() - 1 {
        assert(updated.drop_last() == pairs.drop_last());
    } else {
        let init = pairs.drop_last();
        lemma_pairs_map_update(init, i, pair);
        assert(updated.drop_last() == init.update(i, pair));
    }
}

/// Environment variables for the child, each name once.
#[derive(Debug)]
pub struct Environment {
    entries: Vec<(String, String)>,
}

impl View for Environment {
    type V = Map<Seq<char>, Seq<char>>;

    closed spec fn view(&self) -> Map<Seq<char>, Seq<char>> {
        pairs_map(self.entries@)
    }
}

impl Environment {
    #[verifier::type_invariant]
    spec fn names_are_distinct(&self) -> bool {
        distinct_names(self.entries@)
    }

    /// An environment without variables.
    pub fn new() -> (env: Environment)
        ensures
            env@ == Map::<Seq<char>, Seq<char>>::empty(),
    {
        Environment { entries: Vec::new() }
    }

    /// The value of `key`, if the environment sets it.
    pub fn get(&self, key: &str) -> (r: Option<&String>)
        ensures
            match r {
                Some(value) => self@.contains_pair(key@, value@),
                None => !self@.dom().contains(key@),
            },
    {
        proof {
            use_type_invariant(self);
            lemma_pairs_map(self.entries@);
        }
        let name = key.to_owned();
        let mut i: usize = 0;
        while i < self.entries.len()
            invariant
                i <= self.entries.len(),
                name@ == key@,
                forall|j: int| 0 <= j < i ==> self.entries@[j].0@ != key@,
                forall|j: int|
                    0 <= j < self.entries@.len() ==> pairs_map(self.entries@).contains_pair(
                        #[trigger] self.entries@[j].0@,
                        self.entries@[j].1@,
                    ),
            decreases self.entries.len() - i,
        {
            if self.entries[i].0 == name {
                return Some(&self.entries[i].1);
            }
            i += 1;
        }
        None
    }

    /// The variables as name/value pairs, each name once.
    pub fn pairs(&self) -> (r: &Vec<(String, String)>)
        ensures
            distinct_names(r@),
            pairs_map(r@) == self@,
    {
        proof {
            use_type_invariant(self);
        }
        &self.entries
    }

    /// Sets `key` to `value`, overwriting what `key` had.
    pub fn insert(&mut self, key: String, value: String)
        ensures
            final(self)@ == old(self)@.insert(key@, value@),
    {
        proof {
            use_type_invariant(&*self);
        }
        let mut entries: Vec<(String, String)> = Vec::new();
        std::mem::swap(&mut self.entries, &mut entries);
        let mut i: usize = 0;
        while i < entries.len()
            invariant
                i <= entries.len(),
                forall|j: int| 0 <= j < i ==> entries@[j].0@ != key@,
            ensures
                i < entries.len() ==> entries@[i as int].0@ == key@,
            decreases entries.len() - i,
        {
            if entries[i].0 == key {
                break ;
            }
            i += 1;
        }
        if i < entries.len() {
            proof {
                lemma_pairs_map_update(entries@, i as int, (key, value));
            }
            entries.set(i, (key, value));
        } else {
            proof {
                let pushed = entries@.push((key, value));
                assert(pushed.drop_last() == entries@);
            }
            entries.push((key, value));
        }
        std::mem::swap(&mut self.entries, &mut entries);
    }
}

/// Why an environment string was refused.
#[derive(Debug, Clone, Copy, PartialEq, Eq)]
pub enum EnvError {
    /// The token at this position holds no `=`.
    MissingSeparator { token: usize },
    /// The token at this position begins with `=`: its name is empty.
    EmptyKey { token: usize },
}

/// Position of the `=` that ends the name; the token's length if it has none.
pub open spec fn separator(token: Seq<char>) -> int {
    first_index(token, '=')
}

/// Whether a token has the form `KEY=VALUE` with a name that is not empty.
pub open spec fn is_entry(token: Seq<char>) -> bool {
    0 < separator(token) < token.len()
}

/// The name: what stands before the first `=`.
pub open spec fn entry_key(token: Seq<char>) -> Seq<char> {
    token.take(separator(token))
}

/// The value: what stands after the first `=`. It may be empty and may
/// hold further `=`.
pub open spec fn entry_value(token: Seq<char>) -> Seq<char> {
    token.skip(separator(token) + 1)
}

/// The mapping that well-formed tokens denote, a later token overwriting an
/// earlier one of the same name.
pub open spec fn entries_map(toks: Seq<Seq<char>>) -> Map<Seq<char>, Seq<char>>
    decreases toks.len(),
{
    if toks.len() == 0 {
        Map::empty()
    } else {
        entries_map(toks.drop_last()).insert(entry_key(toks.last()), entry_value(toks.last()))
    }
}

/// Position of the first token that is no entry; the number of tokens if
/// all are entries.
pub open spec fn first_malformed(toks: Seq<Seq<char>>) -> int {
    first_index(Seq::new(toks.len(), |i: int| is_entry(toks[i])), false)
}

/// What a token list denotes: the mapping of its entries if every token is
/// one, and else the fault of the first token that is not.
pub open spec fn env_of_tokens(toks: Seq<Seq<char>>) -> Result<Map<Seq<char>, Seq<char>>, EnvError> {
    let at = first_malformed(toks);
    if at >= toks.len() {
        Ok(entries_map(toks))
    } else if separator(toks[at]) == toks[at].len() {
        Err(EnvError::MissingSeparator { token: at as usize })
    } else {
        Err(EnvError::EmptyKey { token: at as usize })
    }
}

/// A token list is accepted exactly when every token is an entry; one
/// token without `=`, or with nothing before it, has the whole list refused.
pub proof fn law_accepted_iff_all_entries(toks: Seq<Seq<char>>)
    ensures
        env_of_tokens(toks) is Ok <==> forall|i: int|
            0 <= i < toks.len() ==> is_entry(#[trigger] toks[i]),
        env_of_tokens(toks) is Ok ==> env_of_tokens(toks) == Ok::<
            Map<Seq<char>, Seq<char>>,
            EnvError,
        >(entries_map(toks)),
{
    let flags = Seq::new(toks.len(), |i: int| is_entry(toks[i]));
    lemma_first_index(flags, false);
    if first_malformed(toks) >= toks.len() {
        assert forall|i: int| 0 <= i < toks.len() implies is_entry(#[trigger] toks[i]) by {
            assert(flags[i] != false);
        }
    }
}

/// The outcome of a parse as a value of the model.
pub open spec fn outcome_view(r: Result<Environment, EnvError>) -> Result<
    Map<Seq<char>, Seq<char>>,
    EnvError,
> {
    match r {
        Ok(env) => Ok(env@),
        Err(e) => Err(e),
    }
}

/// Builds the environment from `KEY=VALUE` tokens. The first token without
/// `=`, or with nothing before it, is reported with its position, and no
/// environment is built.
pub fn environment_of(toks: &[String]) -> (r: Result<Environment, EnvError>)
    ensures
        outcome_view(r) == env_of_tokens(token_views(toks@)),
{
    let ghost views = token_views(toks@);
    let ghost flags = Seq::new(views.len(), |i: int| is_entry(views[i]));
    let mut env = Environment::new();
    let mut i: usize = 0;
    while i < toks.len()
        invariant
            i <= toks.len(),
            views == token_views(toks@),
            flags == Seq::new(views.len(), |i: int| is_entry(views[i])),
            forall|j: int| 0 <= j < i ==> flags[j] != false,
            env@ == entries_map(views.take(i as int)),
        decreases toks.len() - i,
    {
        let token = toks[i].as_str();
        let chars = chars_of(token);
        let ghost t = views[i as int];
        let mut at: usize = 0;
        while at < chars.len() && chars[at] != '='
            invariant
                at <= chars.len(),
                forall|k: int| 0 <= k < at ==> chars@[k] != '=',
            decreases chars.len() - at,
        {
            at += 1;
        }
        proof {
            lemma_first_index_is(t, '=', at as int);
        }
        if at == 0 || at == chars.len() {
            proof {
                lemma_first_index_is(flags, false, i as int);
            }
            if at == chars.len() {
                return Err(EnvError::MissingSeparator { token: i });
            }
            return Err(EnvError::EmptyKey { token: i });
        }
        let key = String::from_str(token.substring_char(0, at));
        let value = String::from_str(token.substring_char(at + 1, chars.len()));
        proof {
            let next = views.take(i + 1);
            assert(next.drop_last() == views.take(i as int));
        }
        env.insert(key, value);
        i += 1;
    }
    proof {
        assert(views.take(i as int) == views);
        lemma_first_index_is(flags, false, i as int);
    }
    Ok(env)
}

/// Parses an environment string: `KEY=VALUE` tokens separated by white
/// space or line breaks.
pub fn parse_env(env: &str) -> (r: Result<Environment, EnvError>)
    ensures
        outcome_view(r) == env_of_tokens(tokens(env@)),
{
    let toks = split_whitespace(env);
    environment_of(toks.as_slice())
}

} // verus!
