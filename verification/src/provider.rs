use vstd::prelude::*;

verus! {

/// The value the first entry with the given key holds, if any: the
/// association-list reading of a provider's entries.
pub open spec fn assoc(entries: Seq<(String, String)>, key: Seq<char>) -> Option<Seq<char>>
    decreases entries.len(),
{
    if entries.len() == 0 {
        None
    } else if entries[0].0@ == key {
        Some(entries[0].1@)
    } else {
        assoc(entries.skip(1), key)
    }
}

/// A read-only, string-keyed source of override values. Absence of a key
/// is a normal outcome, not an error.
pub trait ReadEnv {
    /// The mapping the provider answers from.
    spec fn lookup_spec(&self, key: Seq<char>) -> Option<Seq<char>>;

    /// Looks the key up; returns the value exactly when the mapping holds
    /// the key.
    fn read_env(&self, var_name: &String) -> (r: Option<String>)
        ensures
            (r is Some) <==> (self.lookup_spec(var_name@) is Some),
            r matches Some(v) ==> Some(v@) == self.lookup_spec(var_name@),
    ;
}

/// A fixed in-memory provider, for exercising the rewriter without any
/// process-wide state. Entries are searched front to back, so the entry a
/// builder added last wins.
pub struct TestEnv {
    pub env_vars: Vec<(String, String)>,
}

impl TestEnv {
    /// Opens a builder with no entries.
    pub fn builder() -> (r: TestEnvBuilder)
        ensures
            r.env_vars@ =~= Seq::<(String, String)>::empty(),
    {
        TestEnvBuilder { env_vars: Vec::new() }
    }
}

impl ReadEnv for TestEnv {
    open spec fn lookup_spec(&self, key: Seq<char>) -> Option<Seq<char>> {
        assoc(self.env_vars@, key)
    }

    fn read_env(&self, var_name: &String) -> (r: Option<String>) {
        let n = self.env_vars.len();
        let mut i: usize = 0;
        proof {
            assert(self.env_vars@.skip(0) =~= self.env_vars@);
        }
        while i < n
            invariant
                0 <= i <= n,
                n == self.env_vars@.len(),
                assoc(self.env_vars@, var_name@) == assoc(self.env_vars@.skip(i as int), var_name@),
            decreases n - i,
        {
            let ghost tail = self.env_vars@.skip(i as int);
            assert(tail[0] == self.env_vars@[i as int]);
            if self.env_vars[i].0 == *var_name {
                return Some(self.env_vars[i].1.clone());
            }
            proof {
                assert(tail.skip(1) =~= self.env_vars@.skip(i as int + 1));
            }
            i += 1;
        }
        proof {
            assert(self.env_vars@.skip(n as int) =~= Seq::<(String, String)>::empty());
        }
        None
    }
}

/// Accumulates key/value entries for a `TestEnv`.
pub struct TestEnvBuilder {
    pub env_vars: Vec<(String, String)>,
}

impl TestEnvBuilder {
    /// Adds an entry; a later entry for the same key shadows an earlier
    /// one.
    pub fn set(self, name: &str, value: &str) -> (r: Self)
        ensures
            forall|k: Seq<char>| #[trigger] assoc(r.env_vars@, k) == (if k == name@ {
                Some(value@)
            } else {
                assoc(self.env_vars@, k)
            }),
    {
        let mut env_vars = self.env_vars;
        env_vars.insert(0, (name.to_owned(), value.to_owned()));
        let r = TestEnvBuilder { env_vars };
        proof {
            assert forall|k: Seq<char>| #[trigger] assoc(r.env_vars@, k) == (if k == name@ {
                Some(value@)
            } else {
                assoc(self.env_vars@, k)
            }) by {
                assert(r.env_vars@[0].0@ == name@);
                assert(r.env_vars@.skip(1) =~= self.env_vars@);
            }
        }
        r
    }

    /// Freezes the accumulated entries into an immutable provider.
    pub fn build(self) -> (r: TestEnv)
        ensures
            forall|k: Seq<char>| #[trigger] r.lookup_spec(k) == assoc(self.env_vars@, k),
    {
        TestEnv { env_vars: self.env_vars }
    }
}

} // verus!
