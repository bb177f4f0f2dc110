//! Processors turn raw data into a collection, or fail as a whole.
//!
//! The two processors of this module read raw bytes line by line and hand each
//! line, as text, to a parse function. The parse function returns an item, or
//! `None` to skip the line, or an error. The first error ends the pass and is its
//! result: a pass never yields part of a collection.

use crate::error::{invalid_text, Error};
use crate::lines::{complete_len, complete_part, decode_line, lines_of, split_lines, text_of};
use std::collections::{HashMap, HashSet};
use std::hash::Hash;
use vstd::prelude::*;
use vstd::std_specs::hash::*;
use vstd::utf8::*;

verus! {

broadcast use vstd::std_specs::hash::group_hash_axioms;

/// Turns raw data of type `S` into a collection of type `T`.
pub trait RawConfigProcessor<S, T> {
    /// Whether `out` is a possible result of processing `raw`. A processor that
    /// does not say is taken to yield anything.
    open spec fn yields(&self, raw: S, out: Result<T, Error>) -> bool {
        true
    }

    /// Processes `raw` into a collection, or fails.
    fn process(&self, raw: S) -> (out: Result<T, Error>)
        ensures
            self.yields(raw, out),
    ;
}

/// Whether `result` can be what line `line` comes to under `parse`: what `parse`
/// returns for the line's text, or the error for bytes that are no text.
pub open spec fn line_result<T, P: Fn(String) -> Result<Option<T>, Error>>(
    parse: P,
    line: Seq<u8>,
    result: Result<Option<T>, Error>,
) -> bool {
    if valid_utf8(line) {
        exists|text: String| text@ == text_of(line) && #[trigger] call_ensures(parse, (text,), result)
    } else {
        result matches Err(e) && e@ == invalid_text()
    }
}

/// Whether `results` are the line results of one pass over `lines`: one result
/// for each line in order, up to and including the first error, where the pass
/// ends.
pub open spec fn is_pass<T, P: Fn(String) -> Result<Option<T>, Error>>(
    parse: P,
    lines: Seq<Seq<u8>>,
    results: Seq<Result<Option<T>, Error>>,
) -> bool {
    &&& results.len() <= lines.len()
    &&& forall|i: int|
        0 <= i < results.len() ==> line_result(parse, lines[i], #[trigger] results[i])
    &&& forall|i: int| 0 <= i < results.len() - 1 ==> (#[trigger] results[i]) is Ok
    &&& results.len() < lines.len() ==> results.len() > 0 && results.last() is Err
}

/// The set that a pass comes to: the items of its lines, or the error of the line
/// that failed.
pub open spec fn gather_set<T>(results: Seq<Result<Option<T>, Error>>) -> Result<Set<T>, Error>
    decreases results.len(),
{
    if results.len() == 0 {
        Ok(Set::empty())
    } else {
        match gather_set(results.drop_last()) {
            Err(e) => Err(e),
            Ok(items) => match results.last() {
                Err(e) => Err(e),
                Ok(None) => Ok(items),
                Ok(Some(item)) => Ok(items.insert(item)),
            },
        }
    }
}

/// The map that a pass comes to: the entries of its lines, a later entry
/// replacing an earlier one with the same key, or the error of the line that
/// failed.
pub open spec fn gather_map<K, V>(results: Seq<Result<Option<(K, V)>, Error>>) -> Result<
    Map<K, V>,
    Error,
>
    decreases results.len(),
{
    if results.len() == 0 {
        Ok(Map::empty())
    } else {
        match gather_map(results.drop_last()) {
            Err(e) => Err(e),
            Ok(entries) => match results.last() {
                Err(e) => Err(e),
                Ok(None) => Ok(entries),
                Ok(Some((key, value))) => Ok(entries.insert(key, value)),
            },
        }
    }
}

/// Builds a set from the lines of raw bytes.
#[verifier::reject_recursive_types(V)]
pub struct RawLineSetProcessor<
    V: Eq + Hash + Sync + Send,
    P: Fn(String) -> Result<Option<V>, Error>,
> {
    parse: P,
}

impl<V: Eq + Hash + Sync + Send, P: Fn(String) -> Result<Option<V>, Error>> RawLineSetProcessor<
    V,
    P,
> {
    /// Every line of text can be handed to the parse function.
    #[verifier::type_invariant]
    spec fn parses_every_line(self) -> bool {
        forall|text: String| call_requires(self.parse, (text,))
    }

    /// The parse function.
    pub closed spec fn parser(&self) -> P {
        self.parse
    }

    /// A processor that applies `parse` to each line.
    pub fn new(parse: P) -> (processor: RawLineSetProcessor<V, P>)
        requires
            forall|text: String| call_requires(parse, (text,)),
        ensures
            processor.parser() == parse,
    {
        RawLineSetProcessor { parse }
    }
}

impl<
    V: Eq + Hash + Sync + Send,
    P: Fn(String) -> Result<Option<V>, Error>,
> RawConfigProcessor<Vec<u8>, HashSet<V>> for RawLineSetProcessor<V, P> {
    open spec fn yields(&self, raw: Vec<u8>, out: Result<HashSet<V>, Error>) -> bool {
        exists|results: Seq<Result<Option<V>, Error>>|
            {
                &&& #[trigger] is_pass(self.parser(), lines_of(raw@), results)
                &&& match out {
                    Ok(set) => {
                        &&& gather_set(results) is Ok
                        &&& obeys_key_model::<V>() ==> gather_set(results) == Ok::<Set<V>, Error>(
                            set@,
                        )
                    },
                    Err(e) => gather_set(results) == Err::<Set<V>, Error>(e),
                }
            }
    }

    fn process(&self, raw: Vec<u8>) -> (out: Result<HashSet<V>, Error>) {
        proof {
            use_type_invariant(self);
        }
        let lines = split_lines(raw.as_slice());
        let mut set: HashSet<V> = HashSet::new();
        let ghost mut results: Seq<Result<Option<V>, Error>> = Seq::empty();
        let mut i: usize = 0;
        while i < lines.len()
            invariant
                i <= lines@.len(),
                lines@.len() == lines_of(raw@).len(),
                forall|k: int|
                    0 <= k < lines@.len() ==> (#[trigger] lines@[k])@ == lines_of(raw@)[k],
                forall|text: String| call_requires(self.parse, (text,)),
                results.len() == i,
                forall|k: int|
                    0 <= k < i ==> line_result(self.parse, lines_of(raw@)[k], #[trigger] results[k]),
                forall|k: int| 0 <= k < i ==> (#[trigger] results[k]) is Ok,
                gather_set(results) is Ok,
                obeys_key_model::<V>() ==> gather_set(results) == Ok::<Set<V>, Error>(set@),
            decreases lines@.len() - i,
        {
            let ghost before = results;
            let result = match decode_line(lines[i].as_slice()) {
                None => Err(Error::invalid_text()),
                Some(text) => (self.parse)(text),
            };
            proof {
                results = before.push(result);
                assert(results.drop_last() =~= before);
                assert(line_result(self.parse, lines_of(raw@)[i as int], result));
            }
            match result {
                Err(e) => {
                    proof {
                        assert(is_pass(self.parser(), lines_of(raw@), results));
                    }
                    return Err(e);
                },
                Ok(None) => {},
                Ok(Some(item)) => {
                    set.insert(item);
                },
            }
            i = i + 1;
        }
        proof {
            assert(is_pass(self.parser(), lines_of(raw@), results));
        }
        Ok(set)
    }
}

/// Builds a map from the lines of raw bytes.
#[verifier::reject_recursive_types(K)]
#[verifier::reject_recursive_types(V)]
pub struct RawLineMapProcessor<
    K: Eq + Hash + Sync + Send + 'static,
    V: Sync + Send + 'static,
    P: Fn(String) -> Result<Option<(K, V)>, Error>,
> {
    parse: P,
}

impl<
    K: Eq + Hash + Sync + Send,
    V: Sync + Send,
    P: Fn(String) -> Result<Option<(K, V)>, Error>,
> RawLineMapProcessor<K, V, P> {
    /// Every line of text can be handed to the parse function.
    #[verifier::type_invariant]
    spec fn parses_every_line(self) -> bool {
        forall|text: String| call_requires(self.parse, (text,))
    }

    /// The parse function.
    pub closed spec fn parser(&self) -> P {
        self.parse
    }

    /// A processor that applies `parse` to each line.
    pub fn new(parse: P) -> (processor: RawLineMapProcessor<K, V, P>)
        requires
            forall|text: String| call_requires(parse, (text,)),
        ensures
            processor.parser() == parse,
    {
        RawLineMapProcessor { parse }
    }
}

impl<
    K: Eq + Hash + Sync + Send,
    V: Sync + Send,
    P: Fn(String) -> Result<Option<(K, V)>, Error>,
> RawConfigProcessor<Vec<u8>, HashMap<K, V>> for RawLineMapProcessor<K, V, P> {
    open spec fn yields(&self, raw: Vec<u8>, out: Result<HashMap<K, V>, Error>) -> bool {
        exists|results: Seq<Result<Option<(K, V)>, Error>>|
            {
                &&& #[trigger] is_pass(self.parser(), lines_of(raw@), results)
                &&& match out {
                    Ok(map) => {
                        &&& gather_map(results) is Ok
                        &&& obeys_key_model::<K>() ==> gather_map(results) == Ok::<
                            Map<K, V>,
                            Error,
                        >(map@)
                    },
                    Err(e) => gather_map(results) == Err::<Map<K, V>, Error>(e),
                }
            }
    }

    fn process(&self, raw: Vec<u8>) -> (out: Result<HashMap<K, V>, Error>) {
        proof {
            use_type_invariant(self);
        }
        let lines = split_lines(raw.as_slice());
        let mut map: HashMap<K, V> = HashMap::new();
        let ghost mut results: Seq<Result<Option<(K, V)>, Error>> = Seq::empty();
        let mut i: usize = 0;
        while i < lines.len()
            invariant
                i <= lines@.len(),
                lines@.len() == lines_of(raw@).len(),
                forall|k: int|
                    0 <= k < lines@.len() ==> (#[trigger] lines@[k])@ == lines_of(raw@)[k],
                forall|text: String| call_requires(self.parse, (text,)),
                results.len() == i,
                forall|k: int|
                    0 <= k < i ==> line_result(self.parse, lines_of(raw@)[k], #[trigger] results[k]),
                forall|k: int| 0 <= k < i ==> (#[trigger] results[k]) is Ok,
                gather_map(results) is Ok,
                obeys_key_model::<K>() ==> gather_map(results) == Ok::<Map<K, V>, Error>(map@),
            decreases lines@.len() - i,
        {
            let ghost before = results;
            let result = match decode_line(lines[i].as_slice()) {
                None => Err(Error::invalid_text()),
                Some(text) => (self.parse)(text),
            };
            proof {
                results = before.push(result);
                assert(results.drop_last() =~= before);
                assert(line_result(self.parse, lines_of(raw@)[i as int], result));
            }
            match result {
                Err(e) => {
                    proof {
                        assert(is_pass(self.parser(), lines_of(raw@), results));
                    }
                    return Err(e);
                },
                Ok(None) => {},
                Ok(Some((key, value))) => {
                    map.insert(key, value);
                },
            }
            i = i + 1;
        }
        proof {
            assert(is_pass(self.parser(), lines_of(raw@), results));
        }
        Ok(map)
    }
}

/// A pass fails exactly when one of its lines fails, and then with the error of
/// the first line that does: no later line and no earlier item changes that.
pub proof fn lemma_gather_set_fails_as_a_whole<T>(results: Seq<Result<Option<T>, Error>>)
    ensures
        gather_set(results) is Ok <==> forall|i: int|
            0 <= i < results.len() ==> (#[trigger] results[i]) is Ok,
        gather_set(results) matches Err(e) ==> exists|i: int|
            0 <= i < results.len() && #[trigger] results[i] == Err::<Option<T>, Error>(e) && forall|
                k: int,
            |
                0 <= k < i ==> (#[trigger] results[k]) is Ok,
    decreases results.len(),
{
    if results.len() > 0 {
        let front = results.drop_last();
        lemma_gather_set_fails_as_a_whole(front);
        assert(forall|i: int| 0 <= i < front.len() ==> front[i] == results[i]);
        match gather_set(front) {
            Err(e) => {
                let i = choose|i: int|
                    0 <= i < front.len() && #[trigger] front[i] == Err::<Option<T>, Error>(e)
                        && forall|k: int| 0 <= k < i ==> (#[trigger] front[k]) is Ok;
                assert(results[i] == Err::<Option<T>, Error>(e));
            },
            Ok(items) => {
                if let Err(e) = results.last() {
                    assert(results[results.len() - 1] == Err::<Option<T>, Error>(e));
                }
            },
        }
    }
}

/// The set of a pass that succeeds holds the items of its lines and nothing else.
pub proof fn lemma_gather_set_items<T>(results: Seq<Result<Option<T>, Error>>, item: T)
    requires
        gather_set(results) is Ok,
    ensures
        gather_set(results)->Ok_0.contains(item) <==> exists|i: int|
            0 <= i < results.len() && #[trigger] results[i] == Ok::<Option<T>, Error>(Some(item)),
        gather_set(results)->Ok_0.finite(),
    decreases results.len(),
{
    if results.len() > 0 {
        let front = results.drop_last();
        lemma_gather_set_items(front, item);
        assert(forall|i: int| 0 <= i < front.len() ==> front[i] == results[i]);
        if gather_set(results)->Ok_0.contains(item) {
            if gather_set(front)->Ok_0.contains(item) {
                let i = choose|i: int|
                    0 <= i < front.len() && #[trigger] front[i] == Ok::<Option<T>, Error>(
                        Some(item),
                    );
                assert(results[i] == Ok::<Option<T>, Error>(Some(item)));
            } else {
                assert(results[results.len() - 1] == Ok::<Option<T>, Error>(Some(item)));
            }
        }
    }
}

/// A pass fails exactly when one of its lines fails, and then with the error of
/// the first line that does: no later line and no earlier entry changes that.
pub proof fn lemma_gather_map_fails_as_a_whole<K, V>(results: Seq<Result<Option<(K, V)>, Error>>)
    ensures
        gather_map(results) is Ok <==> forall|i: int|
            0 <= i < results.len() ==> (#[trigger] results[i]) is Ok,
        gather_map(results) matches Err(e) ==> exists|i: int|
            0 <= i < results.len() && #[trigger] results[i] == Err::<Option<(K, V)>, Error>(e)
                && forall|k: int| 0 <= k < i ==> (#[trigger] results[k]) is Ok,
    decreases results.len(),
{
    if results.len() > 0 {
        let front = results.drop_last();
        lemma_gather_map_fails_as_a_whole(front);
        assert(forall|i: int| 0 <= i < front.len() ==> front[i] == results[i]);
        match gather_map(front) {
            Err(e) => {
                let i = choose|i: int|
                    0 <= i < front.len() && #[trigger] front[i] == Err::<Option<(K, V)>, Error>(e)
                        && forall|k: int| 0 <= k < i ==> (#[trigger] front[k]) is Ok;
                assert(results[i] == Err::<Option<(K, V)>, Error>(e));
            },
            Ok(entries) => {
                if let Err(e) = results.last() {
                    assert(results[results.len() - 1] == Err::<Option<(K, V)>, Error>(e));
                }
            },
        }
    }
}

/// Whether a line result is an entry for `key`.
pub open spec fn gives_key<K, V>(result: Result<Option<(K, V)>, Error>, key: K) -> bool {
    result matches Ok(Some(entry)) && entry.0 == key
}

/// The value of a line result that is an entry.
pub open spec fn value_given<K, V>(result: Result<Option<(K, V)>, Error>) -> V
    recommends
        result matches Ok(Some(_)),
{
    (result->Ok_0->0).1
}

/// The map of a pass that succeeds holds a key exactly when a line gave an entry
/// for it, and the value it holds for the key is the value of such a line: no
/// entry comes from anywhere else.
pub proof fn lemma_gather_map_entries<K, V>(results: Seq<Result<Option<(K, V)>, Error>>, key: K)
    requires
        gather_map(results) is Ok,
    ensures
        gather_map(results)->Ok_0.contains_key(key) <==> exists|i: int|
            0 <= i < results.len() && gives_key(#[trigger] results[i], key),
        gather_map(results)->Ok_0.contains_key(key) ==> exists|i: int|
            0 <= i < results.len() && gives_key(#[trigger] results[i], key) && value_given(
                results[i],
            ) == gather_map(results)->Ok_0[key],
        gather_map(results)->Ok_0.dom().finite(),
    decreases results.len(),
{
    if results.len() > 0 {
        let front = results.drop_last();
        let last = results.len() - 1;
        let whole = gather_map(results)->Ok_0;
        let part = gather_map(front)->Ok_0;
        lemma_gather_map_entries(front, key);
        if gives_key(results[last], key) {
            assert(whole.contains_key(key));
            assert(value_given(results[last]) == whole[key]);
        } else {
            assert(whole.contains_key(key) == part.contains_key(key));
            if part.contains_key(key) {
                let i = choose|i: int|
                    0 <= i < front.len() && gives_key(#[trigger] front[i], key) && value_given(
                        front[i],
                    ) == part[key];
                assert(front[i] == results[i]);
                assert(whole[key] == part[key]);
                assert(gives_key(results[i], key) && value_given(results[i]) == whole[key]);
            }
            if exists|i: int| 0 <= i < results.len() && gives_key(#[trigger] results[i], key) {
                let i = choose|i: int| 0 <= i < results.len() && gives_key(#[trigger] results[i], key);
                assert(i < last);
                assert(front[i] == results[i]);
                assert(gives_key(front[i], key));
            }
        }
    }
}

/// Where several lines give an entry for a key, the last one decides: the map
/// holds the value of the line after which no line gives the key again.
pub proof fn lemma_gather_map_value<K, V>(
    results: Seq<Result<Option<(K, V)>, Error>>,
    key: K,
    i: int,
)
    requires
        gather_map(results) is Ok,
        0 <= i < results.len(),
        gives_key(results[i], key),
        forall|k: int| i < k < results.len() ==> !gives_key(#[trigger] results[k], key),
    ensures
        gather_map(results)->Ok_0.contains_key(key),
        gather_map(results)->Ok_0[key] == value_given(results[i]),
    decreases results.len(),
{
    let front = results.drop_last();
    let last = results.len() - 1;
    if i < last {
        assert(!gives_key(results[last], key));
        assert(front[i] == results[i]);
        assert forall|k: int| i < k < front.len() implies !gives_key(#[trigger] front[k], key) by {
            assert(front[k] == results[k]);
        }
        lemma_gather_map_value(front, key, i);
    }
}

/// A line that is skipped changes nothing: with or without it, wherever it
/// stands, the pass comes to the same set.
pub proof fn lemma_skipped_line_changes_no_set<T>(results: Seq<Result<Option<T>, Error>>, at: int)
    requires
        0 <= at <= results.len(),
    ensures
        gather_set(results.insert(at, Ok(None))) == gather_set(results),
    decreases results.len(),
{
    let longer = results.insert(at, Ok(None));
    if at == results.len() {
        assert(longer.drop_last() =~= results);
    } else {
        assert(longer.drop_last() =~= results.drop_last().insert(at, Ok(None)));
        assert(longer.last() == results.last());
        lemma_skipped_line_changes_no_set(results.drop_last(), at);
    }
}

/// A line that is skipped changes nothing: with or without it, wherever it
/// stands, the pass comes to the same map.
pub proof fn lemma_skipped_line_changes_no_map<K, V>(
    results: Seq<Result<Option<(K, V)>, Error>>,
    at: int,
)
    requires
        0 <= at <= results.len(),
    ensures
        gather_map(results.insert(at, Ok(None))) == gather_map(results),
    decreases results.len(),
{
    let longer = results.insert(at, Ok(None));
    if at == results.len() {
        assert(longer.drop_last() =~= results);
    } else {
        assert(longer.drop_last() =~= results.drop_last().insert(at, Ok(None)));
        assert(longer.last() == results.last());
        lemma_skipped_line_changes_no_map(results.drop_last(), at);
    }
}

/// What a set processor yields, spelled out: the line results of one pass over
/// the lines of `raw`, and `out` as what they come to.
pub proof fn lemma_set_yields<V: Eq + Hash + Sync + Send, P: Fn(String) -> Result<Option<V>, Error>>(
    processor: &RawLineSetProcessor<V, P>,
    raw: &Vec<u8>,
    out: &Result<HashSet<V>, Error>,
) -> (results: Seq<Result<Option<V>, Error>>)
    requires
        processor.yields(*raw, *out),
    ensures
        is_pass(processor.parser(), lines_of(raw@), results),
        *out is Ok <==> gather_set(results) is Ok,
        *out is Ok && obeys_key_model::<V>() ==> gather_set(results) == Ok::<Set<V>, Error>(
            out->Ok_0@,
        ),
        *out is Err ==> gather_set(results) == Err::<Set<V>, Error>(out->Err_0),
{
    choose|results: Seq<Result<Option<V>, Error>>|
        {
            &&& #[trigger] is_pass(processor.parser(), lines_of(raw@), results)
            &&& match *out {
                Ok(set) => {
                    &&& gather_set(results) is Ok
                    &&& obeys_key_model::<V>() ==> gather_set(results) == Ok::<Set<V>, Error>(
                        set@,
                    )
                },
                Err(e) => gather_set(results) == Err::<Set<V>, Error>(e),
            }
        }
}

/// What a map processor yields, spelled out: the line results of one pass over
/// the lines of `raw`, and `out` as what they come to.
pub proof fn lemma_map_yields<
    K: Eq + Hash + Sync + Send,
    V: Sync + Send,
    P: Fn(String) -> Result<Option<(K, V)>, Error>,
>(processor: &RawLineMapProcessor<K, V, P>, raw: &Vec<u8>, out: &Result<HashMap<K, V>, Error>) -> (results:
    Seq<Result<Option<(K, V)>, Error>>)
    requires
        processor.yields(*raw, *out),
    ensures
        is_pass(processor.parser(), lines_of(raw@), results),
        *out is Ok <==> gather_map(results) is Ok,
        *out is Ok && obeys_key_model::<K>() ==> gather_map(results) == Ok::<Map<K, V>, Error>(
            out->Ok_0@,
        ),
        *out is Err ==> gather_map(results) == Err::<Map<K, V>, Error>(out->Err_0),
{
    choose|results: Seq<Result<Option<(K, V)>, Error>>|
        {
            &&& #[trigger] is_pass(processor.parser(), lines_of(raw@), results)
            &&& match *out {
                Ok(map) => {
                    &&& gather_map(results) is Ok
                    &&& obeys_key_model::<K>() ==> gather_map(results) == Ok::<
                        Map<K, V>,
                        Error,
                    >(map@)
                },
                Err(e) => gather_map(results) == Err::<Map<K, V>, Error>(e),
            }
        }
}

/// Every entry of a map that a pass yields comes from a line of that pass: a
/// line of `raw` whose result is an entry with this key and this value. Nothing
/// of an earlier pass is in it.
pub proof fn lemma_map_holds_only_its_own_lines<
    K: Eq + Hash + Sync + Send,
    V: Sync + Send,
    P: Fn(String) -> Result<Option<(K, V)>, Error>,
>(processor: &RawLineMapProcessor<K, V, P>, raw: &Vec<u8>, out: &Result<HashMap<K, V>, Error>, key: K)
    requires
        processor.yields(*raw, *out),
        obeys_key_model::<K>(),
        *out is Ok,
        out->Ok_0@.contains_key(key),
    ensures
        exists|i: int, result: Result<Option<(K, V)>, Error>|
            {
                &&& 0 <= i < lines_of(raw@).len()
                &&& #[trigger] line_result(processor.parser(), lines_of(raw@)[i], result)
                &&& gives_key(result, key)
                &&& value_given(result) == out->Ok_0@[key]
            },
{
    let results = lemma_map_yields(processor, raw, out);
    lemma_gather_map_entries(results, key);
    let i = choose|i: int|
        0 <= i < results.len() && gives_key(#[trigger] results[i], key) && value_given(results[i])
            == gather_map(results)->Ok_0[key];
    assert(line_result(processor.parser(), lines_of(raw@)[i], results[i]));
}

/// What a pass comes to when the stream broke off with `failure`: the error of
/// the first line that failed among those that were read whole, and `failure` if
/// there is none.
pub open spec fn interrupted<T>(early: Result<T, Error>, failure: Error) -> Result<T, Error> {
    match early {
        Err(err) => Err(err),
        Ok(_) => Err(failure),
    }
}

/// Processes what was read of a stream that then broke off with `failure`.
///
/// The lines that were read whole, each with its line feed, are processed as
/// usual. What stands after the last line feed was cut off by the failure and is
/// left out. The result is never a collection.
pub fn process_interrupted<T, P: RawConfigProcessor<Vec<u8>, T>>(
    processor: &P,
    read: Vec<u8>,
    failure: Error,
) -> (out: Result<T, Error>)
    ensures
        exists|whole: Vec<u8>, early: Result<T, Error>|
            {
                &&& whole@ == read@.take(complete_len(read@) as int)
                &&& #[trigger] processor.yields(whole, early)
                &&& out == interrupted(early, failure)
            },
{
    let end = complete_part(read.as_slice());
    let mut whole = read;
    whole.truncate(end);
    assert(whole@ =~= read@.take(complete_len(read@) as int));
    let early = processor.process(whole);
    match early {
        Err(err) => Err(err),
        Ok(_) => Err(failure),
    }
}

} // verus!
