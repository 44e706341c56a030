//! The configuration tree: tables of named values, kept in the order in which
//! the names were entered.
//!
//! A table is at once a command (its own `command` and `desc` entries) and a
//! directory of subcommands (its entries that are tables themselves). Nothing
//! is classified when the tree is built: whoever reads a table decides by the
//! shape of the value found under a name.

use vstd::prelude::*;

verus! {

/// What a value is, as contracts see it.
pub enum ValueModel {
    String(Seq<char>),
    Integer,
    Float,
    Boolean,
    Datetime,
    Array,
    Table(Seq<(Seq<char>, ValueModel)>),
}

/// What a table is, as contracts see it: its entries, first entered first.
pub type TableModel = Seq<(Seq<char>, ValueModel)>;

/// A value of the configuration tree. Strings and tables keep their contents;
/// of the other kinds the tree records only which kind stood there, which is
/// all a diagnostic needs.
#[derive(Debug)]
pub enum ConfigValue {
    String(String),
    Integer,
    Float,
    Boolean,
    Datetime,
    Array,
    Table(ConfigTable),
}

/// A table of named values. No name occurs twice (see [`ConfigTable::wf`]);
/// entering a name again replaces its value where it stands.
#[derive(Debug)]
pub struct ConfigTable {
    entries: Vec<(String, ConfigValue)>,
}

/// The value under the first entry named `key`, if there is one.
pub open spec fn lookup(table: TableModel, key: Seq<char>) -> Option<ValueModel>
    decreases table.len(),
{
    if table.len() == 0 {
        None
    } else if table[0].0 == key {
        Some(table[0].1)
    } else {
        lookup(table.drop_first(), key)
    }
}

/// `i` is where the first entry named `key` stands.
pub open spec fn first_at(table: TableModel, key: Seq<char>, i: int) -> bool {
    &&& 0 <= i < table.len()
    &&& table[i].0 == key
    &&& forall|j: int| 0 <= j < i ==> table[j].0 != key
}

/// No entry is named `key`.
pub open spec fn absent(table: TableModel, key: Seq<char>) -> bool {
    forall|j: int| 0 <= j < table.len() ==> table[j].0 != key
}

/// No name occurs twice among the entries.
pub open spec fn distinct_keys(table: TableModel) -> bool {
    forall|i: int, j: int| 0 <= i < j < table.len() ==> table[i].0 != table[j].0
}

/// No name occurs twice in the table, nor in any table below it.
pub open spec fn well_formed(table: TableModel) -> bool
    decreases table,
{
    &&& distinct_keys(table)
    &&& forall|i: int|
        0 <= i < table.len() ==> (#[trigger] table[i].1 matches ValueModel::Table(sub)
            ==> well_formed(sub))
}

/// A value holds no table with a repeated name.
pub open spec fn value_well_formed(value: ValueModel) -> bool {
    value matches ValueModel::Table(sub) ==> well_formed(sub)
}

/// The table after `value` was entered under `key`: in the place of the old
/// value where the name was there, else behind the last entry.
pub open spec fn insert_model(table: TableModel, key: Seq<char>, value: ValueModel) -> TableModel {
    if absent(table, key) {
        table.push((key, value))
    } else {
        table.update(choose|i: int| first_at(table, key, i), (key, value))
    }
}

/// The first entry named `key` decides what `lookup` finds.
pub proof fn lemma_lookup_first(table: TableModel, key: Seq<char>, i: int)
    requires
        first_at(table, key, i),
    ensures
        lookup(table, key) == Some(table[i].1),
    decreases i,
{
    if i > 0 {
        let rest = table.drop_first();
        assert(first_at(rest, key, i - 1));
        lemma_lookup_first(rest, key, i - 1);
    }
}

/// `lookup` finds nothing exactly when no entry has the name.
pub proof fn lemma_lookup_absent(table: TableModel, key: Seq<char>)
    ensures
        lookup(table, key) is None <==> absent(table, key),
    decreases table.len(),
{
    if table.len() > 0 {
        let rest = table.drop_first();
        lemma_lookup_absent(rest, key);
        if table[0].0 != key {
            if absent(rest, key) {
                assert forall|j: int| 0 <= j < table.len() implies table[j].0 != key by {
                    if j > 0 {
                        assert(rest[j - 1] == table[j]);
                    }
                }
            } else {
                let j = choose|j: int| 0 <= j < rest.len() && rest[j].0 == key;
                assert(table[j + 1].0 == key);
            }
        }
    }
}

/// Whatever `lookup` finds is the value of an entry with that name.
pub proof fn lemma_lookup_is_entry(table: TableModel, key: Seq<char>) -> (i: int)
    requires
        lookup(table, key) is Some,
    ensures
        first_at(table, key, i),
        lookup(table, key) == Some(table[i].1),
    decreases table.len(),
{
    if table[0].0 == key {
        0
    } else {
        let rest = table.drop_first();
        let k = lemma_lookup_is_entry(rest, key);
        assert forall|j: int| 0 <= j < k + 1 implies table[j].0 != key by {
            if j > 0 {
                assert(rest[j - 1] == table[j]);
            }
        }
        k + 1
    }
}

/// In a table without repeated names, an entry is what `lookup` finds under
/// its name.
pub proof fn lemma_lookup_entry(table: TableModel, i: int)
    requires
        distinct_keys(table),
        0 <= i < table.len(),
    ensures
        lookup(table, table[i].0) == Some(table[i].1),
{
    lemma_lookup_first(table, table[i].0, i);
}

/// Entering a value under a name makes it the value found under that name
/// and leaves what is found under every other name as it was.
pub proof fn lemma_insert_then_lookup(
    table: TableModel,
    key: Seq<char>,
    value: ValueModel,
    other: Seq<char>,
)
    ensures
        lookup(insert_model(table, key, value), key) == Some(value),
        other != key ==> lookup(insert_model(table, key, value), other) == lookup(table, other),
{
    let after = insert_model(table, key, value);
    lemma_lookup_absent(table, key);
    let place = if absent(table, key) {
        table.len() as int
    } else {
        let found = lemma_lookup_is_entry(table, key);
        assert(found == choose|i: int| first_at(table, key, i));
        found
    };
    assert(after[place] == (key, value));
    lemma_lookup_first(after, key, place);
    if other != key {
        lemma_lookup_absent(table, other);
        lemma_lookup_absent(after, other);
        if lookup(table, other) is Some {
            let i = lemma_lookup_is_entry(table, other);
            lemma_lookup_first(after, other, i);
        }
    }
}

impl View for ConfigValue {
    type V = ValueModel;

    open spec fn view(&self) -> ValueModel
        decreases self,
    {
        match self {
            ConfigValue::String(s) => ValueModel::String(s@),
            ConfigValue::Integer => ValueModel::Integer,
            ConfigValue::Float => ValueModel::Float,
            ConfigValue::Boolean => ValueModel::Boolean,
            ConfigValue::Datetime => ValueModel::Datetime,
            ConfigValue::Array => ValueModel::Array,
            ConfigValue::Table(t) => ValueModel::Table(t@),
        }
    }
}

impl View for ConfigTable {
    type V = TableModel;

    closed spec fn view(&self) -> TableModel
        decreases self,
    {
        Seq::new(
            self.entries@.len(),
            |i: int|
                if 0 <= i < self.entries@.len() {
                    (self.entries@[i].0@, self.entries@[i].1@)
                } else {
                    arbitrary()
                },
        )
    }
}

impl ConfigValue {
    /// The text of a string value; `None` for every other kind.
    pub fn as_str(&self) -> (text: Option<&str>)
        ensures
            match text {
                Some(s) => self@ == ValueModel::String(s@),
                None => !(self@ is String),
            },
    {
        match self {
            ConfigValue::String(s) => Some(s.as_str()),
            _ => None,
        }
    }

    /// The table of a table value; `None` for every other kind.
    pub fn as_table(&self) -> (table: Option<&ConfigTable>)
        ensures
            match table {
                Some(t) => self@ == ValueModel::Table(t@),
                None => !(self@ is Table),
            },
    {
        match self {
            ConfigValue::Table(t) => Some(t),
            _ => None,
        }
    }
}

impl Clone for ConfigValue {
    fn clone(&self) -> (copy: Self)
        ensures
            copy@ == self@,
        decreases self,
    {
        match self {
            ConfigValue::String(s) => ConfigValue::String(s.clone()),
            ConfigValue::Integer => ConfigValue::Integer,
            ConfigValue::Float => ConfigValue::Float,
            ConfigValue::Boolean => ConfigValue::Boolean,
            ConfigValue::Datetime => ConfigValue::Datetime,
            ConfigValue::Array => ConfigValue::Array,
            ConfigValue::Table(t) => ConfigValue::Table(t.clone()),
        }
    }
}

impl Clone for ConfigTable {
    fn clone(&self) -> (copy: Self)
        ensures
            copy@ == self@,
        decreases self,
    {
        let mut entries: Vec<(String, ConfigValue)> = Vec::new();
        let mut i: usize = 0;
        while i < self.entries.len()
            invariant
                i <= self.entries@.len(),
                entries@.len() == i,
                forall|j: int|
                    0 <= j < i ==> entries@[j].0@ == self.entries@[j].0@ && entries@[j].1@
                        == self.entries@[j].1@,
            decreases self.entries@.len() - i,
        {
            let key = self.entries[i].0.clone();
            let value = self.entries[i].1.clone();
            entries.push((key, value));
            i += 1;
        }
        ConfigTable { entries }
    }
}

impl ConfigTable {
    /// No name occurs twice, here or below.
    pub open spec fn wf(&self) -> bool {
        well_formed(self@)
    }

    /// The table without entries.
    pub fn new() -> (table: ConfigTable)
        ensures
            table@ == TableModel::empty(),
            table.wf(),
    {
        ConfigTable { entries: Vec::new() }
    }

    /// The number of entries.
    pub fn len(&self) -> (n: usize)
        ensures
            n == self@.len(),
    {
        self.entries.len()
    }

    /// The name and the value of the entry at `index`.
    pub fn entry(&self, index: usize) -> (e: (&String, &ConfigValue))
        requires
            index < self@.len(),
        ensures
            e.0@ == self@[index as int].0,
            e.1@ == self@[index as int].1,
    {
        (&self.entries[index].0, &self.entries[index].1)
    }

    /// The value entered under `key`.
    pub fn get(&self, key: &str) -> (found: Option<&ConfigValue>)
        ensures
            match found {
                Some(value) => lookup(self@, key@) == Some(value@),
                None => lookup(self@, key@) is None,
            },
    {
        let name = key.to_owned();
        let mut i: usize = 0;
        while i < self.entries.len()
            invariant
                i <= self.entries@.len(),
                name@ == key@,
                forall|j: int| 0 <= j < i ==> self@[j].0 != key@,
            decreases self.entries@.len() - i,
        {
            if self.entries[i].0 == name {
                proof {
                    lemma_lookup_first(self@, key@, i as int);
                }
                return Some(&self.entries[i].1);
            }
            i += 1;
        }
        proof {
            lemma_lookup_absent(self@, key@);
        }
        None
    }

    /// Enters `value` under `key` and hands back the value that stood there.
    /// A new name goes behind the last entry; a known name keeps its place.
    pub fn insert(&mut self, key: String, value: ConfigValue) -> (previous: Option<ConfigValue>)
        ensures
            final(self)@ == insert_model(old(self)@, key@, value@),
            match previous {
                Some(v) => lookup(old(self)@, key@) == Some(v@),
                None => lookup(old(self)@, key@) is None,
            },
            old(self).wf() && value_well_formed(value@) ==> final(self).wf(),
    {
        let ghost before = self@;
        let mut i: usize = 0;
        while i < self.entries.len()
            invariant
                i <= self.entries@.len(),
                self@ == before,
                *self == *old(self),
                forall|j: int| 0 <= j < i ==> before[j].0 != key@,
            decreases self.entries@.len() - i,
        {
            if self.entries[i].0 == key {
                proof {
                    lemma_lookup_first(before, key@, i as int);
                    assert(first_at(before, key@, i as int));
                }
                self.entries.push((key, value));
                let old_entry = self.entries.swap_remove(i);
                proof {
                    assert(self@ =~= before.update(i as int, (key@, value@)));
                    lemma_update_keeps_well_formed(before, i as int, value@);
                }
                return Some(old_entry.1);
            }
            i += 1;
        }
        proof {
            lemma_lookup_absent(before, key@);
            lemma_push_keeps_well_formed(before, key@, value@);
        }
        self.entries.push((key, value));
        None
    }
}

/// Replacing the value of an entry keeps a table free of repeated names.
pub proof fn lemma_update_keeps_well_formed(table: TableModel, i: int, value: ValueModel)
    requires
        0 <= i < table.len(),
    ensures
        well_formed(table) && value_well_formed(value) ==> well_formed(
            table.update(i, (table[i].0, value)),
        ),
{
    let after = table.update(i, (table[i].0, value));
    if well_formed(table) && value_well_formed(value) {
        assert(distinct_keys(after));
        assert forall|k: int| 0 <= k < after.len() implies value_well_formed(
            #[trigger] after[k].1,
        ) by {
            if k != i {
                assert(after[k] == table[k]);
            }
        }
    }
}

/// A new name behind the last entry keeps a table free of repeated names.
pub proof fn lemma_push_keeps_well_formed(table: TableModel, key: Seq<char>, value: ValueModel)
    requires
        absent(table, key),
    ensures
        well_formed(table) && value_well_formed(value) ==> well_formed(table.push((key, value))),
{
    let after = table.push((key, value));
    if well_formed(table) && value_well_formed(value) {
        assert(distinct_keys(after));
        assert forall|k: int| 0 <= k < after.len() implies value_well_formed(
            #[trigger] after[k].1,
        ) by {
            if k < table.len() {
                assert(after[k] == table[k]);
            }
        }
    }
}

} // verus!
