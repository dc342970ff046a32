use vstd::prelude::*;

use crate::roster::DieData;

verus! {

/// What one entry of the roll list shows: its name, its notation, and the
/// text of its last result.
#[derive(Debug)]
pub struct Die {
    pub name: String,
    pub roll: String,
    pub output: String,
}

/// What the user or the server did to an entry.
#[derive(Debug)]
pub enum Msg {
    InputName(String),
    InputRoll(String),
    Output(String),
    FetchFailed,
    Roll,
}

/// What the caller must do after an update.
#[derive(Debug)]
pub enum Effect {
    /// Tell the list that the entry known by the name given first now holds
    /// the data given second.
    Notify(String, DieData),
    /// Send this notation to the server to be rolled.
    SendRoll(String),
    Nothing,
}

pub open spec fn failure_text() -> Seq<char> {
    "Invalid input"@
}

impl Die {
    pub fn new(name: String, roll: String, output: String) -> (r: Die)
        ensures
            r.name@ == name@,
            r.roll@ == roll@,
            r.output@ == output@,
    {
        Die { name, roll, output }
    }

    /// Applies `msg` and says what the caller must do next.
    pub fn update(&mut self, msg: Msg) -> (r: Effect)
        ensures
            match msg {
                Msg::InputName(s) => {
                    &&& final(self).name@ == s@
                    &&& final(self).roll@ == old(self).roll@
                    &&& final(self).output@ == old(self).output@
                    &&& r matches Effect::Notify(former, data) && former@ == old(self).name@
                        && data@ == (s@, old(self).roll@)
                },
                Msg::InputRoll(s) => {
                    &&& final(self).name@ == old(self).name@
                    &&& final(self).roll@ == s@
                    &&& final(self).output@ == old(self).output@
                    &&& r matches Effect::Notify(name, data) && name@ == old(self).name@
                        && data@ == (old(self).name@, s@)
                },
                Msg::Output(s) => {
                    &&& final(self).name@ == old(self).name@
                    &&& final(self).roll@ == old(self).roll@
                    &&& final(self).output@ == s@
                    &&& r is Nothing
                },
                Msg::FetchFailed => {
                    &&& final(self).name@ == old(self).name@
                    &&& final(self).roll@ == old(self).roll@
                    &&& final(self).output@ == failure_text()
                    &&& r is Nothing
                },
                Msg::Roll => {
                    &&& final(self).name@ == old(self).name@
                    &&& final(self).roll@ == old(self).roll@
                    &&& final(self).output@ == old(self).output@
                    &&& r matches Effect::SendRoll(n) && n@ == old(self).roll@
                },
            },
    {
        match msg {
            Msg::InputName(s) => {
                let former = self.name.clone();
                self.name = s;
                Effect::Notify(former, DieData::new(self.name.as_str(), self.roll.as_str()))
            },
            Msg::InputRoll(s) => {
                self.roll = s;
                Effect::Notify(self.name.clone(), DieData::new(self.name.as_str(), self.roll.as_str()))
            },
            Msg::Output(s) => {
                self.output = s;
                Effect::Nothing
            },
            Msg::FetchFailed => {
                self.output = "Invalid input".to_owned();
                Effect::Nothing
            },
            Msg::Roll => Effect::SendRoll(self.roll.clone()),
        }
    }
}

} // verus!
