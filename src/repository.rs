use std::rc::Rc;
use vstd::prelude::*;

verus! {

/// Relies on `Rc::clone`: a second pointer to the same value.
#[verifier::external_body]
pub(crate) fn share<T>(value: &Rc<T>) -> (r: Rc<T>)
    ensures
        r == *value,
{
    Rc::clone(value)
}

/// The map that a list of registrations gives: a later registration of a name
/// overrides an earlier one.
pub open spec fn registrations_map<H>(entries: Seq<(String, Rc<H>)>) -> Map<Seq<char>, Rc<H>>
    decreases entries.len(),
{
    if entries.len() == 0 {
        Map::empty()
    } else {
        registrations_map(entries.drop_last()).insert(entries.last().0@, entries.last().1)
    }
}

/// A table of builtin commands, from name to handler.
pub trait BuiltinCommandRepository<H> {
    /// The handlers, by name.
    spec fn registered(&self) -> Map<Seq<char>, Rc<H>>;

    /// The handler registered under `command_name`, if any.
    fn lookup_command(&self, command_name: &str) -> (r: Option<Rc<H>>)
        ensures
            r == (if self.registered().contains_key(command_name@) {
                Some(self.registered()[command_name@])
            } else {
                None
            }),
    ;

    /// Registers `command` under `name`, replacing what was there.
    fn add_command(&mut self, name: String, command: Rc<H>)
        ensures
            final(self).registered() == old(self).registered().insert(name@, command),
    ;
}

/// The shell's table of builtin commands.
pub struct JshCommandRepository<H> {
    commands: Vec<(String, Rc<H>)>,
}

impl<H> JshCommandRepository<H> {
    /// An empty table.
    pub fn new() -> (r: JshCommandRepository<H>)
        ensures
            r.registered() == Map::<Seq<char>, Rc<H>>::empty(),
    {
        JshCommandRepository { commands: Vec::new() }
    }
}

impl<H> BuiltinCommandRepository<H> for JshCommandRepository<H> {
    closed spec fn registered(&self) -> Map<Seq<char>, Rc<H>> {
        registrations_map(self.commands@)
    }

    fn lookup_command(&self, command_name: &str) -> (r: Option<Rc<H>>) {
        let key = String::from_str(command_name);
        let mut found: Option<usize> = None;
        let mut i: usize = 0;
        while i < self.commands.len()
            invariant
                i <= self.commands@.len(),
                key@ == command_name@,
                match found {
                    Some(p) => p < i && registrations_map(self.commands@.subrange(0, i as int)).contains_key(key@)
                        && registrations_map(self.commands@.subrange(0, i as int))[key@]
                        == self.commands@[p as int].1,
                    None => !registrations_map(self.commands@.subrange(0, i as int)).contains_key(key@),
                },
            decreases self.commands@.len() - i,
        {
            proof {
                assert(self.commands@.subrange(0, i + 1).drop_last() =~= self.commands@.subrange(0, i as int));
            }
            if self.commands[i].0 == key {
                found = Some(i);
            }
            i = i + 1;
        }
        proof {
            assert(self.commands@.subrange(0, i as int) =~= self.commands@);
        }
        match found {
            Some(p) => Some(share(&self.commands[p].1)),
            None => None,
        }
    }

    fn add_command(&mut self, name: String, command: Rc<H>) {
        self.commands.push((name, command));
        proof {
            assert(final(self).commands@.drop_last() =~= old(self).commands@);
        }
    }
}

} // verus!
