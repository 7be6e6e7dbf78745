use vstd::prelude::*;

use crate::state_machine::StateMachine;

verus! {

/// Where a chat stands in the riddle it plays.
#[derive(Clone, Debug, PartialEq, Eq)]
pub struct ChatState {
    /// The code of the riddle.
    pub riddle: String,
    /// The current state of its machine.
    pub state: String,
}

/// A published riddle.
pub struct Riddle {
    pub name: String,
    pub description: String,
    pub state_machine: StateMachine,
    /// The id of the user who created it.
    pub creator: u64,
}

/// The riddles that can be played, each under its own code.
pub struct Riddles {
    codes: Vec<String>,
    riddles: Vec<Riddle>,
}

impl Riddles {
    /// The codes in use, in the order in which they were added.
    pub closed spec fn codes(&self) -> Seq<Seq<char>> {
        self.codes@.map_values(|c: String| c@)
    }

    pub open spec fn has_code(&self, code: Seq<char>) -> bool {
        self.codes().contains(code)
    }

    /// The riddle published under `code`.
    pub closed spec fn riddle_for(&self, code: Seq<char>) -> Riddle {
        self.riddles@[choose|i: int| 0 <= i < self.codes@.len() && self.codes@[i]@ == code]
    }

    /// There is one riddle for each code, and codes are unique.
    #[verifier::type_invariant]
    spec fn wf(&self) -> bool {
        &&& self.codes.len() == self.riddles.len()
        &&& forall|i: int, j: int|
            0 <= i < j < self.codes.len() ==> #[trigger] self.codes@[i]@ != #[trigger] self.codes@[j]@
    }

    proof fn lemma_riddle_at(&self, i: int)
        requires
            self.wf(),
            0 <= i < self.codes.len(),
        ensures
            self.riddle_for(self.codes@[i]@) == self.riddles@[i],
            self.has_code(self.codes@[i]@),
    {
        let c = self.codes@[i]@;
        assert(self.codes()[i] == c);
        let j = choose|j: int| 0 <= j < self.codes@.len() && self.codes@[j]@ == c;
        if j < i {
            assert(self.codes@[j]@ != self.codes@[i]@);
        } else if i < j {
            assert(self.codes@[i]@ != self.codes@[j]@);
        }
    }

    pub fn new() -> (r: Riddles)
        ensures
            r.codes().len() == 0,
    {
        Riddles { codes: Vec::new(), riddles: Vec::new() }
    }

    /// The position of `code`, if it is in use.
    fn position(&self, code: &String) -> (r: Option<usize>)
        requires
            self.wf(),
        ensures
            r matches Some(i) ==> i < self.codes.len() && self.codes@[i as int]@ == code@,
            r is None ==> !self.has_code(code@),
    {
        let mut i: usize = 0;
        while i < self.codes.len()
            invariant
                i <= self.codes.len(),
                forall|j: int| 0 <= j < i ==> #[trigger] self.codes@[j]@ != code@,
            decreases self.codes.len() - i,
        {
            if self.codes[i] == *code {
                return Some(i);
            }
            i = i + 1;
        }
        assert forall|j: int| 0 <= j < self.codes().len() implies self.codes()[j] != code@ by {
            assert(self.codes()[j] == self.codes@[j]@);
        }
        None
    }

    /// Whether a riddle is published under `code`.
    pub fn contains(&self, code: &str) -> (r: bool)
        ensures
            r == self.has_code(code@),
    {
        proof {
            use_type_invariant(self);
        }
        let code = code.to_owned();
        match self.position(&code) {
            Some(i) => {
                proof {
                    self.lemma_riddle_at(i as int);
                }
                true
            },
            None => false,
        }
    }

    /// The riddle published under `code`.
    pub fn get(&self, code: &str) -> (r: Option<&Riddle>)
        ensures
            r is Some <==> self.has_code(code@),
            r matches Some(x) ==> *x == self.riddle_for(code@),
    {
        proof {
            use_type_invariant(self);
        }
        let code = code.to_owned();
        match self.position(&code) {
            Some(i) => {
                proof {
                    self.lemma_riddle_at(i as int);
                }
                Some(&self.riddles[i])
            },
            None => None,
        }
    }

    /// Publishes `riddle` under `code`, unless the code is taken: then the
    /// riddle is handed back and nothing changes.
    pub fn insert(&mut self, code: String, riddle: Riddle) -> (r: Result<(), Riddle>)
        ensures
            old(self).has_code(code@) ==> r == Err::<(), Riddle>(riddle) && final(self).codes()
                == old(self).codes(),
            !old(self).has_code(code@) ==> r is Ok && final(self).codes() == old(self).codes().push(
                code@,
            ),
            final(self).has_code(code@),
            r is Ok ==> final(self).riddle_for(code@) == riddle,
            forall|c: Seq<char>|
                c != code@ && old(self).has_code(c) ==> #[trigger] final(self).riddle_for(c)
                    == old(self).riddle_for(c),
    {
        proof {
            use_type_invariant(&*self);
        }
        match self.position(&code) {
            Some(i) => {
                proof {
                    self.lemma_riddle_at(i as int);
                }
                return Err(riddle);
            },
            None => {},
        }
        let ghost prev = *self;
        let mut taken = Riddles::new();
        std::mem::swap(self, &mut taken);
        proof {
            use_type_invariant(&taken);
        }
        let Riddles { mut codes, mut riddles } = taken;
        codes.push(code);
        riddles.push(riddle);
        proof {
            assert forall|i: int, j: int|
                0 <= i < j < codes.len() implies #[trigger] codes@[i]@ != #[trigger] codes@[j]@ by {
                if j == codes.len() - 1 {
                    assert(prev.codes()[i] == prev.codes@[i]@);
                }
            }
        }
        let next = Riddles { codes: codes, riddles: riddles };
        *self = next;
        assert(self.codes() =~= prev.codes().push(code@));
        proof {
            self.lemma_riddle_at(self.codes.len() - 1);
            assert forall|c: Seq<char>| c != code@ && prev.has_code(c) implies #[trigger] self.riddle_for(c)
                == prev.riddle_for(c) by {
                let k = choose|k: int| 0 <= k < prev.codes().len() && prev.codes()[k] == c;
                assert(prev.codes()[k] == prev.codes@[k]@);
                prev.lemma_riddle_at(k);
                self.lemma_riddle_at(k);
            }
        }
        Ok(())
    }

    /// Withdraws the riddle published under `code`; tells whether there was one.
    pub fn remove(&mut self, code: &str) -> (r: bool)
        ensures
            r == old(self).has_code(code@),
            !final(self).has_code(code@),
            forall|c: Seq<char>|
                c != code@ ==> (#[trigger] final(self).has_code(c) == old(self).has_code(c)),
            forall|c: Seq<char>|
                c != code@ && old(self).has_code(c) ==> #[trigger] final(self).riddle_for(c)
                    == old(self).riddle_for(c),
    {
        proof {
            use_type_invariant(&*self);
        }
        let code = code.to_owned();
        match self.position(&code) {
            None => false,
            Some(i) => {
                let ghost prev = *self;
                proof {
                    prev.lemma_riddle_at(i as int);
                }
                let mut taken = Riddles::new();
                std::mem::swap(self, &mut taken);
                proof {
                    use_type_invariant(&taken);
                }
                let Riddles { mut codes, mut riddles } = taken;
                codes.remove(i);
                riddles.remove(i);
                proof {
                    assert forall|a: int, b: int|
                        0 <= a < b < codes.len() implies #[trigger] codes@[a]@
                        != #[trigger] codes@[b]@ by {
                        let a2 = if a < i { a } else { a + 1 };
                        let b2 = if b < i { b } else { b + 1 };
                        assert(prev.codes@[a2]@ != prev.codes@[b2]@);
                    }
                }
                *self = Riddles { codes: codes, riddles: riddles };
                assert(self.codes() =~= prev.codes().remove(i as int));
                assert forall|c: Seq<char>| c != code@ implies (#[trigger] self.has_code(c)
                    == prev.has_code(c)) by {
                    if prev.has_code(c) {
                        let k = choose|k: int| 0 <= k < prev.codes().len() && prev.codes()[k] == c;
                        assert(k != i);
                        let k2 = if k < i { k } else { k - 1 };
                        assert(self.codes()[k2] == c);
                    }
                    if self.has_code(c) {
                        let k = choose|k: int| 0 <= k < self.codes().len() && self.codes()[k] == c;
                        let k2 = if k < i { k } else { k + 1 };
                        assert(prev.codes()[k2] == c);
                    }
                }
                assert(!self.has_code(code@)) by {
                    if self.has_code(code@) {
                        let k = choose|k: int|
                            0 <= k < self.codes().len() && self.codes()[k] == code@;
                        let k2 = if k < i { k } else { k + 1 };
                        assert(prev.codes@[k2]@ == prev.codes@[i as int]@);
                    }
                }
                assert forall|c: Seq<char>| c != code@ && prev.has_code(c) implies #[trigger] self.riddle_for(c)
                    == prev.riddle_for(c) by {
                    let k = choose|k: int| 0 <= k < prev.codes().len() && prev.codes()[k] == c;
                    assert(prev.codes()[k] == prev.codes@[k]@);
                    assert(k != i);
                    let k2 = if k < i { k } else { k - 1 };
                    prev.lemma_riddle_at(k);
                    self.lemma_riddle_at(k2);
                }
                true
            },
        }
    }

    /// How many riddles are published.
    pub fn len(&self) -> (r: usize)
        ensures
            r == self.codes().len(),
    {
        proof {
            use_type_invariant(self);
        }
        self.codes.len()
    }

    /// The code and riddle at position `i`, in the order of publication.
    pub fn entry(&self, i: usize) -> (r: (&String, &Riddle))
        requires
            i < self.codes().len(),
        ensures
            r.0@ == self.codes()[i as int],
            *r.1 == self.riddle_for(r.0@),
    {
        proof {
            use_type_invariant(self);
            self.lemma_riddle_at(i as int);
        }
        (&self.codes[i], &self.riddles[i])
    }
}

} // verus!
