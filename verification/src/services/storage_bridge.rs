//! The storage bridge: the named tables of the store, and the answer to a
//! query about them (list the tables, or scan one).
use vstd::prelude::*;

use crate::text::{copy_string, string_eq, strings_view};

verus! {

/// The kind of record that a table holds.
#[derive(Clone, Copy, Debug, PartialEq, Eq, Structural)]
pub enum ModelKind {
    Task,
    PrefixTrieNode,
}

/// A table: its name and the kind of its records.
#[derive(Clone, Debug)]
pub struct NamedModel {
    pub name: String,
    pub kind: ModelKind,
}

/// The tables of the store, each under a distinct name, in the order they
/// were first defined.
#[derive(Clone, Debug)]
pub struct NamedModels {
    entries: Vec<NamedModel>,
}

/// No two tables share a name.
pub open spec fn distinct_names(entries: Seq<NamedModel>) -> bool {
    forall|i: int, j: int|
        0 <= i < entries.len() && 0 <= j < entries.len() && i != j ==> #[trigger] entries[i].name@
            != #[trigger] entries[j].name@
}

/// The table names, in order.
pub open spec fn names_of(entries: Seq<NamedModel>) -> Seq<Seq<char>> {
    entries.map_values(|m: NamedModel| m.name@)
}

/// The kind of the table named `name`, if there is one.
pub open spec fn kind_of(entries: Seq<NamedModel>, name: Seq<char>) -> Option<ModelKind> {
    if exists|i: int| 0 <= i < entries.len() && #[trigger] entries[i].name@ == name {
        Some(entries[choose|i: int| 0 <= i < entries.len() && #[trigger] entries[i].name@ == name].kind)
    } else {
        None
    }
}

impl NamedModels {
    /// The tables, in order.
    pub closed spec fn tables(&self) -> Seq<NamedModel> {
        self.entries@
    }

    /// The table names are distinct.
    pub closed spec fn wf(&self) -> bool {
        distinct_names(self.entries@)
    }

    /// No tables.
    pub fn new() -> (r: NamedModels)
        ensures
            r.wf(),
            r.tables().len() == 0,
    {
        NamedModels { entries: Vec::new() }
    }

    /// Defines the table `name` with records of `kind`: a table of that name
    /// gets the new kind, any other name is added after the existing tables.
    pub fn define(&mut self, name: &str, kind: ModelKind)
        requires
            old(self).wf(),
        ensures
            final(self).wf(),
            kind_of(final(self).tables(), name@) == Some(kind),
            forall|n: Seq<char>| n != name@ ==> kind_of(final(self).tables(), n) == kind_of(old(self).tables(), n),
            kind_of(old(self).tables(), name@) is Some ==> names_of(final(self).tables()) == names_of(old(self).tables()),
            kind_of(old(self).tables(), name@) is None ==> names_of(final(self).tables()) == names_of(old(self).tables()).push(name@),
    {
        let mut i: usize = 0;
        while i < self.entries.len()
            invariant
                self.entries@ == old(self).entries@,
                distinct_names(self.entries@),
                i <= self.entries@.len(),
                forall|j: int| 0 <= j < i ==> #[trigger] self.entries@[j].name@ != name@,
            decreases self.entries@.len() - i,
        {
            if str_eq_string(name, &self.entries[i].name) {
                let ghost before = self.entries@;
                let entry = NamedModel { name: copy_string(&self.entries[i].name), kind };
                self.entries.set(i, entry);
                proof {
                    let after = self.entries@;
                    assert(before[i as int].name@ == name@);
                    assert forall|a: int, b: int|
                        0 <= a < after.len() && 0 <= b < after.len() && a != b implies #[trigger] after[a].name@
                            != #[trigger] after[b].name@ by {
                        assert(after[a].name@ == before[a].name@);
                        assert(after[b].name@ == before[b].name@);
                    }
                    assert(kind_of(after, name@) == Some(kind)) by {
                        assert(after[i as int].name@ == name@);
                    }
                    assert forall|n: Seq<char>| n != name@ implies kind_of(after, n) == kind_of(before, n) by {
                        if exists|j: int| 0 <= j < before.len() && #[trigger] before[j].name@ == n {
                            let j = choose|j: int| 0 <= j < before.len() && #[trigger] before[j].name@ == n;
                            assert(after[j].name@ == n);
                        }
                        if exists|j: int| 0 <= j < after.len() && #[trigger] after[j].name@ == n {
                            let j = choose|j: int| 0 <= j < after.len() && #[trigger] after[j].name@ == n;
                            assert(before[j].name@ == n);
                        }
                    }
                    assert(names_of(after) =~= names_of(before));
                    assert(kind_of(before, name@) is Some) by {
                        assert(before[i as int].name@ == name@);
                    }
                }
                return;
            }
            i = i + 1;
        }
        let ghost before = self.entries@;
        self.entries.push(NamedModel { name: name.to_owned(), kind });
        proof {
            let after = self.entries@;
            assert(after[before.len() as int].name@ == name@);
            assert(kind_of(before, name@) is None);
            assert(kind_of(after, name@) == Some(kind));
            assert forall|n: Seq<char>| n != name@ implies kind_of(after, n) == kind_of(before, n) by {
                if exists|j: int| 0 <= j < after.len() && #[trigger] after[j].name@ == n {
                    let j = choose|j: int| 0 <= j < after.len() && #[trigger] after[j].name@ == n;
                    assert(j < before.len());
                    assert(before[j].name@ == n);
                }
                if exists|j: int| 0 <= j < before.len() && #[trigger] before[j].name@ == n {
                    let j = choose|j: int| 0 <= j < before.len() && #[trigger] before[j].name@ == n;
                    assert(after[j].name@ == n);
                }
            }
            assert(names_of(after) =~= names_of(before).push(name@));
        }
    }

    /// The kind of the table named `name`, if there is one.
    pub fn get(&self, name: &str) -> (r: Option<ModelKind>)
        requires
            self.wf(),
        ensures
            r == kind_of(self.tables(), name@),
    {
        let mut i: usize = 0;
        while i < self.entries.len()
            invariant
                i <= self.entries@.len(),
                distinct_names(self.entries@),
                forall|j: int| 0 <= j < i ==> #[trigger] self.entries@[j].name@ != name@,
            decreases self.entries@.len() - i,
        {
            if str_eq_string(name, &self.entries[i].name) {
                proof {
                    let e = self.entries@;
                    assert(e[i as int].name@ == name@);
                    let k = choose|j: int| 0 <= j < e.len() && #[trigger] e[j].name@ == name@;
                    assert(k == i);
                }
                return Some(self.entries[i].kind);
            }
            i = i + 1;
        }
        None
    }

    /// The table names, in order.
    pub fn names(&self) -> (r: Vec<String>)
        ensures
            strings_view(r@) == names_of(self.tables()),
    {
        let mut r: Vec<String> = Vec::new();
        let mut i: usize = 0;
        while i < self.entries.len()
            invariant
                i <= self.entries@.len(),
                strings_view(r@) == names_of(self.entries@.take(i as int)),
            decreases self.entries@.len() - i,
        {
            let ghost prev = r@;
            r.push(copy_string(&self.entries[i].name));
            proof {
                let t = self.entries@.take(i + 1int);
                assert(t =~= self.entries@.take(i as int).push(self.entries@[i as int]));
                assert(strings_view(prev).len() == prev.len());
                assert(names_of(self.entries@.take(i as int)).len() == i);
                assert(prev.len() == i);
                assert(names_of(t).len() == i + 1);
                assert(strings_view(r@).len() == r@.len());
                assert forall|k: int| 0 <= k < r@.len() implies #[trigger] strings_view(r@)[k] == names_of(t)[k] by {
                    if k < prev.len() {
                        assert(r@[k] == prev[k]);
                        assert(strings_view(prev)[k] == names_of(self.entries@.take(i as int))[k]);
                    } else {
                        assert(r@[k]@ == self.entries@[i as int].name@);
                    }
                }
                assert(strings_view(r@) =~= names_of(t));
            }
            i = i + 1;
        }
        proof {
            assert(self.entries@.take(i as int) =~= self.entries@);
        }
        r
    }
}

/// `a` and `b` hold the same characters.
fn str_eq_string(a: &str, b: &String) -> (r: bool)
    ensures
        r == (a@ == b@),
{
    let s = a.to_owned();
    string_eq(&s, b)
}

/// The name of the task table.
pub open spec fn task_table() -> Seq<char> {
    seq!['t', 'a', 's', 'k']
}

/// The name of the prefix index table.
pub open spec fn prefix_trie_node_table() -> Seq<char> {
    seq!['p', 'r', 'e', 'f', 'i', 'x', '-', 't', 'r', 'i', 'e', '-', 'n', 'o', 'd', 'e']
}

/// The daemon's tables: `task` holding tasks and `prefix-trie-node` holding
/// the nodes of the task id prefix index.
pub fn get_models() -> (r: NamedModels)
    ensures
        r.wf(),
        names_of(r.tables()) == seq![task_table(), prefix_trie_node_table()],
        kind_of(r.tables(), task_table()) == Some(ModelKind::Task),
        kind_of(r.tables(), prefix_trie_node_table()) == Some(ModelKind::PrefixTrieNode),
{
    let mut models = NamedModels::new();
    proof {
        reveal_strlit("task");
        reveal_strlit("prefix-trie-node");
        assert("task"@ =~= task_table());
        assert("prefix-trie-node"@ =~= prefix_trie_node_table());
    }
    models.define("task", ModelKind::Task);
    models.define("prefix-trie-node", ModelKind::PrefixTrieNode);
    proof {
        assert(names_of(models.tables()) =~= seq![task_table(), prefix_trie_node_table()]);
    }
    models
}

/// A query of the store's tables.
#[derive(Clone, Debug)]
pub enum DbOperation {
    ListTables,
    ScanTable { table_name: String },
}

/// The answer to a query: the table names, or the rows of a table, each
/// serialized as JSON.
#[derive(Clone, Debug)]
pub enum DbResult {
    TableList(Vec<String>),
    TableRows(Vec<String>),
}

/// What answering a query takes: either the answer itself, or a scan of
/// every record of a table of the given kind.
#[derive(Clone, Debug)]
pub enum DbQuery {
    Done(DbResult),
    Scan(ModelKind),
}

/// Why a query could not be answered.
#[derive(Clone, Debug)]
pub enum StorageBridgeError {
    /// No table has the name the scan asked for.
    TableNotFound(String),
}

impl StorageBridgeError {
    /// The error's message.
    pub fn message(&self) -> (r: String)
        ensures
            r@ == match *self {
                StorageBridgeError::TableNotFound(name) => "Table '"@ + name@ + "' not found or not scannable."@,
            },
    {
        match self {
            StorageBridgeError::TableNotFound(name) => {
                let mut m = String::from_str("Table '");
                m.append(name.as_str());
                m.append("' not found or not scannable.");
                m
            },
        }
    }
}

/// The storage bridge of the daemon's store.
#[derive(Clone, Debug)]
pub struct StorageBridgeServiceInner {
    pub models: NamedModels,
}

impl StorageBridgeServiceInner {
    /// Answers `operation`: the list of table names, or the kind of records
    /// to scan for the named table, or `TableNotFound` with that name.
    pub fn db_query(&self, operation: DbOperation) -> (r: Result<DbQuery, StorageBridgeError>)
        requires
            self.models.wf(),
        ensures
            match operation {
                DbOperation::ListTables => r matches Ok(DbQuery::Done(DbResult::TableList(names)))
                    && strings_view(names@) == names_of(self.models.tables()),
                DbOperation::ScanTable { table_name } => match kind_of(self.models.tables(), table_name@) {
                    Some(kind) => r == Ok::<DbQuery, StorageBridgeError>(DbQuery::Scan(kind)),
                    None => r matches Err(StorageBridgeError::TableNotFound(n)) && n@ == table_name@,
                },
            },
    {
        match operation {
            DbOperation::ListTables => Ok(DbQuery::Done(DbResult::TableList(self.models.names()))),
            DbOperation::ScanTable { table_name } => match self.models.get(table_name.as_str()) {
                Some(kind) => Ok(DbQuery::Scan(kind)),
                None => Err(StorageBridgeError::TableNotFound(table_name)),
            },
        }
    }
}

} // verus!
