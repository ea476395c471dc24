//! The global table: a mapping from names to values, last write wins.
use crate::lexer::same_text;
use crate::value::{last_index, lemma_last_index, FromValue, ToValue, Value, COERCE_ERROR};
use vstd::prelude::*;

verus! {

/// The error of reading a global that is not defined.
pub const UNDEFINED_ERROR: &'static str = "cannot find name in this scope";

/// The global table. Successive scripts of a session share it.
#[derive(Debug, Default)]
pub struct State {
    globals: Vec<(String, Value)>,
}

impl State {
    /// The names in the table, in order of first definition.
    pub closed spec fn keys(&self) -> Seq<Seq<char>> {
        self.globals@.map_values(|e: (String, Value)| e.0@)
    }

    /// The table as a mapping.
    pub closed spec fn view(&self) -> Map<Seq<char>, Value> {
        Map::new(
            |k: Seq<char>| last_index(self.keys(), k) >= 0,
            |k: Seq<char>| self.globals@[last_index(self.keys(), k)].1,
        )
    }

    pub fn new() -> (r: Self)
        ensures
            r@ == Map::<Seq<char>, Value>::empty(),
    {
        let r = State { globals: Vec::new() };
        assert(r@ =~= Map::<Seq<char>, Value>::empty());
        r
    }

    /// Where `name` is bound in the table.
    fn find(&self, name: &str) -> (r: Option<usize>)
        ensures
            match r {
                Some(i) => i == last_index(self.keys(), name@),
                None => last_index(self.keys(), name@) == -1,
            },
    {
        let mut i = self.globals.len();
        assert(self.keys().take(i as int) =~= self.keys());
        while i > 0
            invariant
                i <= self.globals.len(),
                last_index(self.keys().take(i as int), name@) == last_index(self.keys(), name@),
            decreases i,
        {
            assert(self.keys().take(i as int).drop_last() =~= self.keys().take(i - 1));
            if same_text(self.globals[i - 1].0.as_str(), name) {
                return Some(i - 1);
            }
            i = i - 1;
        }
        None
    }

    /// Binds `name` to `value`, replacing an earlier binding.
    pub fn define(&mut self, name: &str, value: Value)
        ensures
            final(self)@ == old(self)@.insert(name@, value),
    {
        proof {
            lemma_last_index(old(self).keys(), name@);
        }
        match self.find(name) {
            Some(i) => {
                self.globals.set(i, (name.to_owned(), value));
                assert(self.keys() =~= old(self).keys());
            },
            None => {
                self.globals.push((name.to_owned(), value));
                assert(self.keys().drop_last() =~= old(self).keys());
            },
        }
        proof {
            lemma_last_index(self.keys(), name@);
            assert forall|k: Seq<char>| k != name@ implies #[trigger] last_index(self.keys(), k) == last_index(old(self).keys(), k)
                && (last_index(self.keys(), k) >= 0 ==> self.globals@[last_index(self.keys(), k)] == old(self).globals@[last_index(old(self).keys(), k)]) by {
                lemma_last_index(old(self).keys(), k);
                lemma_last_index(self.keys(), k);
            }
            assert(self@ =~= old(self)@.insert(name@, value));
        }
    }

    /// Registers a global before any script runs.
    pub fn add<T: ToValue>(&mut self, name: &str, value: T)
        ensures
            final(self)@.contains_key(name@),
            value.converts_to(final(self)@[name@]),
            final(self)@ == old(self)@.insert(name@, final(self)@[name@]),
    {
        self.define(name, value.to_value());
    }

    /// The value bound to `name`, copied.
    pub fn lookup(&self, name: &str) -> (r: Option<Value>)
        ensures
            self@.contains_key(name@) ==> r == Some(self@[name@]),
            !self@.contains_key(name@) ==> r is None,
    {
        proof {
            lemma_last_index(self.keys(), name@);
        }
        match self.find(name) {
            Some(i) => Some(self.globals[i].1.duplicate()),
            None => None,
        }
    }

    /// The value bound to `name`, coerced to `T`: an error names an
    /// undefined global, or a value of the wrong kind.
    pub fn get<T: FromValue>(&self, name: &str) -> (r: Result<T, String>)
        ensures
            !self@.contains_key(name@) ==> r is Err && r->Err_0@ == UNDEFINED_ERROR@,
            self@.contains_key(name@) ==> match T::spec_from_value(self@[name@]) {
                Some(x) => r == Ok::<T, String>(x),
                None => r is Err && r->Err_0@ == COERCE_ERROR@,
            },
    {
        proof {
            lemma_last_index(self.keys(), name@);
        }
        match self.find(name) {
            Some(i) => T::from_value(&self.globals[i].1),
            None => Err(UNDEFINED_ERROR.to_owned()),
        }
    }
}

} // verus!
