//! The registry of built-in commands: a mapping from command names to the
//! operations that the shell performs itself.

use crate::text::str_eq;
use vstd::prelude::*;

verus! {

/// An operation that the shell performs itself.
#[derive(Clone, Copy, Debug, PartialEq, Eq, Structural)]
pub enum Builtin {
    /// Leave the shell.
    Exit,
    /// Write the arguments.
    Echo,
    /// Say what a command name stands for.
    Type,
    /// Write the working directory.
    Pwd,
    /// Change the working directory.
    Cd,
}

/// One name of the registry with its operation.
struct Entry {
    name: String,
    operation: Builtin,
}

/// A mapping from command names to built-in operations.
///
/// No name occurs twice. The registry is filled once, before the session
/// starts, and only read afterwards.
pub struct Builtins {
    entries: Vec<Entry>,
}

/// Whether the entry at `i` carries the name `key`.
spec fn names(entries: Seq<Entry>, key: Seq<char>, i: int) -> bool {
    0 <= i < entries.len() && entries[i].name@ == key
}

/// Whether no name occurs at two places.
spec fn distinct(entries: Seq<Entry>) -> bool {
    forall|i: int, j: int|
        0 <= i < j < entries.len() ==> (#[trigger] entries[i]).name@ != (#[trigger] entries[j]).name@
}

/// The mapping that a list of entries with distinct names stands for.
spec fn mapping(entries: Seq<Entry>) -> Map<Seq<char>, Builtin> {
    Map::new(
        |key: Seq<char>| exists|i: int| names(entries, key, i),
        |key: Seq<char>| entries[choose|i: int| names(entries, key, i)].operation,
    )
}

/// In a list with distinct names, the entry that carries a name decides
/// what the name maps to.
proof fn lemma_entry_decides(entries: Seq<Entry>, i: int)
    requires
        distinct(entries),
        0 <= i < entries.len(),
    ensures
        mapping(entries).contains_key(entries[i].name@),
        mapping(entries)[entries[i].name@] == entries[i].operation,
{
    let key = entries[i].name@;
    assert(names(entries, key, i));
    let j = choose|j: int| names(entries, key, j);
    assert(names(entries, key, j));
    if i < j {
        assert(entries[i].name@ != entries[j].name@);
    }
    if j < i {
        assert(entries[j].name@ != entries[i].name@);
    }
}

/// A name that no entry carries is no key of the mapping.
proof fn lemma_absent(entries: Seq<Entry>, key: Seq<char>)
    requires
        forall|i: int| 0 <= i < entries.len() ==> (#[trigger] entries[i]).name@ != key,
    ensures
        !mapping(entries).contains_key(key),
{
    if mapping(entries).contains_key(key) {
        let i = choose|i: int| names(entries, key, i);
        assert(names(entries, key, i));
        assert(entries[i].name@ != key);
    }
}

/// Appending an entry with a new name adds one key.
proof fn lemma_push(entries: Seq<Entry>, entry: Entry)
    requires
        distinct(entries),
        forall|i: int| 0 <= i < entries.len() ==> (#[trigger] entries[i]).name@ != entry.name@,
    ensures
        distinct(entries.push(entry)),
        mapping(entries.push(entry)) == mapping(entries).insert(entry.name@, entry.operation),
{
    let longer = entries.push(entry);
    assert(distinct(longer)) by {
        assert forall|i: int, j: int| 0 <= i < j < longer.len() implies (#[trigger] longer[i]).name@
            != (#[trigger] longer[j]).name@ by {
            assert(longer[i] == entries[i]);
            if j < entries.len() {
                assert(longer[j] == entries[j]);
            }
        }
    }
    let target = mapping(entries).insert(entry.name@, entry.operation);
    assert forall|key: Seq<char>| #[trigger] mapping(longer).contains_key(key) implies target.contains_key(key)
        && mapping(longer)[key] == target[key] by {
        let i = choose|i: int| names(longer, key, i);
        assert(names(longer, key, i));
        lemma_entry_decides(longer, i);
        if i < entries.len() {
            assert(longer[i] == entries[i]);
            lemma_entry_decides(entries, i);
        }
    }
    assert forall|key: Seq<char>| #[trigger] target.contains_key(key) implies mapping(longer).contains_key(key) by {
        if key == entry.name@ {
            assert(names(longer, key, entries.len() as int));
        } else {
            let i = choose|i: int| names(entries, key, i);
            assert(names(entries, key, i));
            assert(longer[i] == entries[i]);
            assert(names(longer, key, i));
        }
    }
    assert(mapping(longer) =~= target);
}

/// Giving the entry at `i` another operation changes what its name maps to
/// and nothing else.
proof fn lemma_replace(entries: Seq<Entry>, i: int, entry: Entry)
    requires
        distinct(entries),
        0 <= i < entries.len(),
        entry.name@ == entries[i].name@,
    ensures
        distinct(entries.update(i, entry)),
        mapping(entries.update(i, entry)) == mapping(entries).insert(entry.name@, entry.operation),
{
    let changed = entries.update(i, entry);
    assert(distinct(changed)) by {
        assert forall|a: int, b: int| 0 <= a < b < changed.len() implies (#[trigger] changed[a]).name@
            != (#[trigger] changed[b]).name@ by {
            assert(changed[a].name@ == entries[a].name@);
            assert(changed[b].name@ == entries[b].name@);
        }
    }
    let target = mapping(entries).insert(entry.name@, entry.operation);
    assert forall|key: Seq<char>| #[trigger] mapping(changed).contains_key(key) implies target.contains_key(key)
        && mapping(changed)[key] == target[key] by {
        let j = choose|j: int| names(changed, key, j);
        assert(names(changed, key, j));
        lemma_entry_decides(changed, j);
        assert(changed[j].name@ == entries[j].name@);
        lemma_entry_decides(entries, j);
        if j != i {
            assert(changed[j] == entries[j]);
            if j < i {
                assert(entries[j].name@ != entries[i].name@);
            } else {
                assert(entries[i].name@ != entries[j].name@);
            }
        }
    }
    assert forall|key: Seq<char>| #[trigger] target.contains_key(key) implies mapping(changed).contains_key(key) by {
        if key == entry.name@ {
            assert(names(changed, key, i));
        } else {
            let j = choose|j: int| names(entries, key, j);
            assert(names(entries, key, j));
            assert(changed[j].name@ == entries[j].name@);
            assert(names(changed, key, j));
        }
    }
    assert(mapping(changed) =~= target);
}

impl Builtins {
    #[verifier::type_invariant]
    spec fn well_formed(&self) -> bool {
        distinct(self.entries@)
    }

    /// The mapping that the registry holds.
    pub closed spec fn view(&self) -> Map<Seq<char>, Builtin> {
        mapping(self.entries@)
    }

    /// A registry without names.
    pub fn new() -> (registry: Self)
        ensures
            registry@ == Map::<Seq<char>, Builtin>::empty(),
    {
        let registry = Builtins { entries: Vec::new() };
        proof {
            lemma_absent_all(registry.entries@);
        }
        registry
    }

    /// Position of the entry that carries `name`, if there is one.
    fn position(&self, name: &str) -> (found: Option<usize>)
        ensures
            match found {
                Some(i) => names(self.entries@, name@, i as int),
                None => forall|i: int|
                    0 <= i < self.entries@.len() ==> (#[trigger] self.entries@[i]).name@ != name@,
            },
    {
        let n: usize = self.entries.len();
        let mut i: usize = 0;
        while i < n
            invariant
                i <= n,
                n == self.entries@.len(),
                forall|k: int| 0 <= k < i ==> (#[trigger] self.entries@[k]).name@ != name@,
            decreases n - i,
        {
            if str_eq(self.entries[i].name.as_str(), name) {
                return Some(i);
            }
            i += 1;
        }
        None
    }

    /// Maps `name` to `operation` and returns the operation that it mapped
    /// to before, if it was a key.
    pub fn insert(&mut self, name: &str, operation: Builtin) -> (before: Option<Builtin>)
        ensures
            final(self)@ == old(self)@.insert(name@, operation),
            before == (if old(self)@.contains_key(name@) {
                Some(old(self)@[name@])
            } else {
                None
            }),
    {
        proof {
            use_type_invariant(&*self);
        }
        let found = self.position(name);
        let entry = Entry { name: name.to_owned(), operation };
        let mut taken = Builtins { entries: Vec::new() };
        proof {
            lemma_absent_all(taken.entries@);
        }
        std::mem::swap(self, &mut taken);
        let Builtins { entries } = taken;
        let mut entries = entries;
        let before = match found {
            Some(i) => {
                proof {
                    lemma_entry_decides(entries@, i as int);
                    lemma_replace(entries@, i as int, entry);
                }
                let before = entries[i].operation;
                entries.set(i, entry);
                Some(before)
            },
            None => {
                proof {
                    lemma_absent(entries@, name@);
                    lemma_push(entries@, entry);
                }
                entries.push(entry);
                None
            },
        };
        *self = Builtins { entries };
        before
    }

    /// The operation that `name` maps to, if it is a key.
    pub fn lookup(&self, name: &str) -> (operation: Option<Builtin>)
        ensures
            operation == (if self@.contains_key(name@) {
                Some(self@[name@])
            } else {
                None
            }),
    {
        proof {
            use_type_invariant(self);
        }
        match self.position(name) {
            Some(i) => {
                proof {
                    lemma_entry_decides(self.entries@, i as int);
                }
                Some(self.entries[i].operation)
            },
            None => {
                proof {
                    lemma_absent(self.entries@, name@);
                }
                None
            },
        }
    }

    /// Whether `name` is a key.
    pub fn contains_key(&self, name: &str) -> (found: bool)
        ensures
            found == self@.contains_key(name@),
    {
        self.lookup(name).is_some()
    }

    /// The registry of a shell: `exit`, `echo`, `type`, `pwd` and `cd`, each
    /// with the operation of that name.
    pub fn standard() -> (registry: Self)
        ensures
            registry@ == standard_builtins(),
    {
        let mut registry = Builtins::new();
        registry.insert("exit", Builtin::Exit);
        registry.insert("echo", Builtin::Echo);
        registry.insert("type", Builtin::Type);
        registry.insert("pwd", Builtin::Pwd);
        registry.insert("cd", Builtin::Cd);
        registry
    }
}

/// The mapping of the five built-in commands of a shell.
pub open spec fn standard_builtins() -> Map<Seq<char>, Builtin> {
    Map::<Seq<char>, Builtin>::empty().insert("exit"@, Builtin::Exit).insert(
        "echo"@,
        Builtin::Echo,
    ).insert("type"@, Builtin::Type).insert("pwd"@, Builtin::Pwd).insert("cd"@, Builtin::Cd)
}

/// A list without entries maps nothing.
proof fn lemma_absent_all(entries: Seq<Entry>)
    requires
        entries.len() == 0,
    ensures
        distinct(entries),
        mapping(entries) == Map::<Seq<char>, Builtin>::empty(),
{
    assert forall|key: Seq<char>| !(#[trigger] mapping(entries).contains_key(key)) by {
        lemma_absent(entries, key);
    }
    assert(mapping(entries) =~= Map::<Seq<char>, Builtin>::empty());
}

} // verus!
