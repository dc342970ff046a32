use vstd::prelude::*;

verus! {

/// A named roll that a user keeps: a label and its notation.
#[derive(Debug)]
pub struct DieData {
    pub name: String,
    pub roll: String,
}

impl View for DieData {
    type V = (Seq<char>, Seq<char>);

    open spec fn view(&self) -> (Seq<char>, Seq<char>) {
        (self.name@, self.roll@)
    }
}

impl DieData {
    pub fn new(name: &str, roll: &str) -> (r: DieData)
        ensures
            r@ == (name@, roll@),
    {
        DieData { name: name.to_owned(), roll: roll.to_owned() }
    }

    /// A copy of this entry.
    pub fn duplicate(&self) -> (r: DieData)
        ensures
            r@ == self@,
    {
        DieData { name: self.name.clone(), roll: self.roll.clone() }
    }
}

/// A change to the list of kept rolls.
#[derive(Debug)]
pub enum Msg {
    /// Replaces the first entry with the given name.
    UpdateDie(String, DieData),
    /// Appends an entry with an empty name and roll.
    NewDie,
    /// Removes every entry with the given name.
    DeleteDie(String),
}

/// The list of kept rolls, in the order the user made them.
#[derive(Debug)]
pub struct DiceList {
    pub dice: Vec<DieData>,
}

impl View for DiceList {
    type V = Seq<(Seq<char>, Seq<char>)>;

    open spec fn view(&self) -> Seq<(Seq<char>, Seq<char>)> {
        self.dice@.map_values(|d: DieData| d@)
    }
}

/// The position of the first entry of `s` named `name`, if any.
pub open spec fn first_named(s: Seq<(Seq<char>, Seq<char>)>, name: Seq<char>) -> Option<int> {
    if exists|i: int| 0 <= i < s.len() && (#[trigger] s[i]).0 == name {
        Some(
            choose|i: int|
                0 <= i < s.len() && (#[trigger] s[i]).0 == name && forall|j: int|
                    0 <= j < i ==> s[j].0 != name,
        )
    } else {
        None
    }
}

/// Holds of the entries not named `name`.
pub open spec fn named_otherwise(name: Seq<char>) -> spec_fn((Seq<char>, Seq<char>)) -> bool {
    |d: (Seq<char>, Seq<char>)| d.0 != name
}

impl DiceList {
    /// The list a new user starts with: a single entry.
    pub fn starting() -> (r: DiceList)
        ensures
            r@ == seq![("default"@, "3x 3d20 *2 +1 s2"@)],
    {
        let mut dice: Vec<DieData> = Vec::new();
        dice.push(DieData::new("default", "3x 3d20 *2 +1 s2"));
        let r = DiceList { dice };
        assert(r@ =~= seq![("default"@, "3x 3d20 *2 +1 s2"@)]);
        r
    }

    /// Applies `msg`; the list is always to be shown again afterwards.
    pub fn update(&mut self, msg: Msg) -> (r: bool)
        ensures
            r,
            match msg {
                Msg::UpdateDie(name, data) => match first_named(old(self)@, name@) {
                    Some(i) => final(self)@ == old(self)@.update(i, data@),
                    None => final(self)@ == old(self)@,
                },
                Msg::NewDie => final(self)@ == old(self)@.push((Seq::<char>::empty(), Seq::<char>::empty())),
                Msg::DeleteDie(name) => final(self)@ == old(self)@.filter(named_otherwise(name@)),
            },
    {
        match msg {
            Msg::UpdateDie(name, data) => {
                let ghost v = self@;
                let mut i: usize = 0;
                while i < self.dice.len() && self.dice[i].name != name
                    invariant
                        i <= self.dice@.len(),
                        v == self@,
                        forall|j: int| 0 <= j < i ==> v[j].0 != name@,
                    decreases self.dice@.len() - i,
                {
                    i = i + 1;
                }
                if i < self.dice.len() {
                    proof {
                        assert(v[i as int].0 == name@);
                        let k = first_named(v, name@)->0;
                        assert(k == i as int) by {
                            if k < i {
                            } else if k > i {
                                assert(v[i as int].0 == name@);
                            }
                        }
                    }
                    self.dice.set(i, data);
                    assert(self@ =~= v.update(i as int, data@));
                } else {
                    assert(first_named(v, name@) is None);
                }
            },
            Msg::NewDie => {
                let ghost v = self@;
                proof {
                    reveal_strlit("");
                    assert(""@ =~= Seq::<char>::empty());
                }
                self.dice.push(DieData::new("", ""));
                assert(self@ =~= v.push((Seq::<char>::empty(), Seq::<char>::empty())));
            },
            Msg::DeleteDie(name) => {
                let ghost v = self@;
                let ghost keep = named_otherwise(name@);
                let mut kept: Vec<DieData> = Vec::new();
                let mut i: usize = 0;
                while i < self.dice.len()
                    invariant
                        i <= self.dice@.len(),
                        v == self@,
                        keep == named_otherwise(name@),
                        kept@.map_values(|d: DieData| d@) == v.subrange(0, i as int).filter(keep),
                    decreases self.dice@.len() - i,
                {
                    let ghost before = kept@;
                    let keep_it = self.dice[i].name != name;
                    proof {
                        reveal(Seq::filter);
                        let s1 = v.subrange(0, i + 1);
                        assert(s1.drop_last() =~= v.subrange(0, i as int));
                        assert(s1.last() == v[i as int]);
                        assert(v[i as int] == self.dice@[i as int]@);
                        assert(keep_it == (self.dice@[i as int].name@ != name@));
                        assert(keep_it == keep(v[i as int]));
                        if keep_it {
                            assert(s1.filter(keep) == v.subrange(0, i as int).filter(keep).push(v[i as int]));
                        } else {
                            assert(s1.filter(keep) == v.subrange(0, i as int).filter(keep));
                        }
                    }
                    if keep_it {
                        kept.push(self.dice[i].duplicate());
                        assert(kept@.map_values(|d: DieData| d@) =~= before.map_values(
                            |d: DieData| d@,
                        ).push(v[i as int]));
                    }
                    i = i + 1;
                }
                assert(v.subrange(0, v.len() as int) =~= v);
                self.dice = kept;
            },
        }
        true
    }
}

} // verus!
