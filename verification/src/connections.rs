//! Saved connections: the list of connection settings that the client
//! remembers between sessions, kept unique by name where the user keeps it so.
//! Passwords are never part of a saved connection.

use vstd::prelude::*;

use crate::text::{trim, trimmed};

verus! {

/// A remembered connection. The password is deliberately not part of it.
#[derive(Clone, Debug)]
pub struct SavedConnection {
    pub name: String,
    pub host: String,
    pub port: String,
    pub user: String,
    pub database: String,
}

/// The text of a saved connection's fields.
pub struct SavedConnectionView {
    pub name: Seq<char>,
    pub host: Seq<char>,
    pub port: Seq<char>,
    pub user: Seq<char>,
    pub database: Seq<char>,
}

impl View for SavedConnection {
    type V = SavedConnectionView;

    open spec fn view(&self) -> SavedConnectionView {
        SavedConnectionView {
            name: self.name@,
            host: self.host@,
            port: self.port@,
            user: self.user@,
            database: self.database@,
        }
    }
}

/// The name given to a connection whose name field was left blank:
/// `user@host/database`.
pub open spec fn default_connection_name(user: Seq<char>, host: Seq<char>, database: Seq<char>) -> Seq<char> {
    user + seq!['@'] + host + seq!['/'] + database
}

/// The name a connection gets from the form: the name typed, unless it is
/// blank (only white space), in which case `user@host/database`.
pub open spec fn form_connection_name(
    name: Seq<char>,
    user: Seq<char>,
    host: Seq<char>,
    database: Seq<char>,
) -> Seq<char> {
    if trimmed(name).len() == 0 {
        default_connection_name(user, host, database)
    } else {
        name
    }
}

/// The name of a duplicate of a connection named `name`: `name (copy)`.
pub open spec fn copy_name(name: Seq<char>) -> Seq<char> {
    name + seq![' ', '(', 'c', 'o', 'p', 'y', ')']
}

fn copy_string(s: &String) -> (c: String)
    ensures
        c@ == s@,
{
    s.clone()
}

impl SavedConnection {
    /// The saved connection that the connection form describes; a blank name
    /// becomes `user@host/database`.
    pub fn from_form(name: String, host: String, port: String, user: String, database: String) -> (c: SavedConnection)
        ensures
            c@.name == form_connection_name(name@, user@, host@, database@),
            c@.host == host@,
            c@.port == port@,
            c@.user == user@,
            c@.database == database@,
    {
        let t = trim(name.as_str());
        let name = if t.as_str().is_empty() {
            let mut n = String::new();
            n.append(user.as_str());
            proof {
                reveal_strlit("@");
                reveal_strlit("/");
            }
            n.append("@");
            n.append(host.as_str());
            n.append("/");
            n.append(database.as_str());
            assert(n@ =~= default_connection_name(user@, host@, database@));
            n
        } else {
            name
        };
        SavedConnection { name, host, port, user, database }
    }

    /// A copy of this connection, field by field.
    pub fn copy(&self) -> (c: SavedConnection)
        ensures
            c@ == self@,
    {
        SavedConnection {
            name: copy_string(&self.name),
            host: copy_string(&self.host),
            port: copy_string(&self.port),
            user: copy_string(&self.user),
            database: copy_string(&self.database),
        }
    }

    /// A copy of this connection named `<name> (copy)`.
    pub fn duplicate(&self) -> (c: SavedConnection)
        ensures
            c@.name == copy_name(self.name@),
            c@.host == self.host@,
            c@.port == self.port@,
            c@.user == self.user@,
            c@.database == self.database@,
    {
        let mut name = copy_string(&self.name);
        proof {
            reveal_strlit(" (copy)");
        }
        name.append(" (copy)");
        assert(name@ =~= copy_name(self.name@));
        SavedConnection {
            name,
            host: copy_string(&self.host),
            port: copy_string(&self.port),
            user: copy_string(&self.user),
            database: copy_string(&self.database),
        }
    }
}

/// The position of the first connection named `name` in `s`, or `s.len()`
/// when there is none.
pub open spec fn name_position(s: Seq<SavedConnectionView>, name: Seq<char>) -> int
    decreases s.len(),
{
    if s.len() == 0 {
        0
    } else if s[0].name == name {
        0
    } else {
        1 + name_position(s.drop_first(), name)
    }
}

/// The list after saving `c` by name: it replaces the first connection with
/// the same name, or goes to the end when no connection has that name.
pub open spec fn upserted(s: Seq<SavedConnectionView>, c: SavedConnectionView) -> Seq<SavedConnectionView> {
    let j = name_position(s, c.name);
    if j < s.len() {
        s.update(j, c)
    } else {
        s.push(c)
    }
}

/// The list after replacing the connection at `index` by `c`; unchanged when
/// `index` is out of range.
pub open spec fn updated_at(s: Seq<SavedConnectionView>, index: int, c: SavedConnectionView) -> Seq<SavedConnectionView> {
    if 0 <= index < s.len() {
        s.update(index, c)
    } else {
        s
    }
}

/// The list without the connection at `index`; unchanged when `index` is out
/// of range.
pub open spec fn removed_at(s: Seq<SavedConnectionView>, index: int) -> Seq<SavedConnectionView> {
    if 0 <= index < s.len() {
        s.remove(index)
    } else {
        s
    }
}

/// The connection `c` under the name `copy_name(c.name)`.
pub open spec fn copied(c: SavedConnectionView) -> SavedConnectionView {
    SavedConnectionView { name: copy_name(c.name), ..c }
}

/// The list after duplicating the connection at `index` (saved by name, as
/// `upserted` does); unchanged when `index` is out of range.
pub open spec fn duplicated_at(s: Seq<SavedConnectionView>, index: int) -> Seq<SavedConnectionView> {
    if 0 <= index < s.len() {
        upserted(s, copied(s[index]))
    } else {
        s
    }
}

/// What `name_position` is: the first match, or the length when none.
pub proof fn lemma_name_position(s: Seq<SavedConnectionView>, name: Seq<char>)
    ensures
        0 <= name_position(s, name) <= s.len(),
        name_position(s, name) < s.len() ==> s[name_position(s, name)].name == name,
        forall|k: int| 0 <= k < name_position(s, name) ==> #[trigger] s[k].name != name,
    decreases s.len(),
{
    if s.len() > 0 && s[0].name != name {
        lemma_name_position(s.drop_first(), name);
        assert forall|k: int| 0 <= k < name_position(s, name) implies #[trigger] s[k].name != name by {
            if k > 0 {
                assert(s[k] == s.drop_first()[k - 1]);
            }
        }
    }
}

proof fn lemma_name_position_is(s: Seq<SavedConnectionView>, name: Seq<char>, i: int)
    requires
        0 <= i <= s.len(),
        forall|k: int| 0 <= k < i ==> #[trigger] s[k].name != name,
        i == s.len() || s[i].name == name,
    ensures
        name_position(s, name) == i,
    decreases i,
{
    if i > 0 {
        let t = s.drop_first();
        assert forall|k: int| 0 <= k < i - 1 implies #[trigger] t[k].name != name by {
            assert(t[k] == s[k + 1]);
        }
        if i < s.len() {
            assert(t[i - 1] == s[i]);
        }
        lemma_name_position_is(t, name, i - 1);
    }
}

/// Whether no two connections in `s` share a name.
pub open spec fn names_unique(s: Seq<SavedConnectionView>) -> bool {
    forall|i: int, j: int|
        0 <= i < s.len() && 0 <= j < s.len() && i != j ==> #[trigger] s[i].name != #[trigger] s[j].name
}

/// Saving by name keeps the connection and touches nothing else: when some
/// connection already has `c`'s name, the first such one (every connection
/// before it has another name) is replaced by `c` and the length is the same;
/// when none has it, `c` is added at the end. Every other connection stays
/// where it was.
pub proof fn lemma_upsert_saves(s: Seq<SavedConnectionView>, c: SavedConnectionView)
    ensures
        (exists|i: int| 0 <= i < s.len() && s[i].name == c.name) ==> {
            exists|j: int| {
                &&& 0 <= j < s.len()
                &&& s[j].name == c.name
                &&& (forall|k: int| 0 <= k < j ==> #[trigger] s[k].name != c.name)
                &&& upserted(s, c).len() == s.len()
                &&& upserted(s, c)[j] == c
                &&& (forall|k: int| 0 <= k < s.len() && k != j ==> #[trigger] upserted(s, c)[k] == s[k])
            }
        },
        (forall|i: int| 0 <= i < s.len() ==> #[trigger] s[i].name != c.name) ==> {
            &&& upserted(s, c).len() == s.len() + 1
            &&& upserted(s, c)[s.len() as int] == c
            &&& (forall|k: int| 0 <= k < s.len() ==> #[trigger] upserted(s, c)[k] == s[k])
        },
        upserted(s, c).contains(c),
{
    lemma_name_position(s, c.name);
    let j = name_position(s, c.name);
    assert(upserted(s, c)[j] == c);
    if exists|i: int| 0 <= i < s.len() && s[i].name == c.name {
        let i = choose|i: int| 0 <= i < s.len() && s[i].name == c.name;
        assert(j <= i);
        assert(s[j].name == c.name);
    } else {
        assert(j == s.len());
    }
}

/// Saving the same connection twice is the same as saving it once: after
/// `store.upsert(c.copy())` a second `store.upsert(c.copy())` leaves the store
/// as it was (both calls give `upserted(_, c@)`).
pub proof fn lemma_upsert_idempotent(s: Seq<SavedConnectionView>, c: SavedConnectionView)
    ensures
        upserted(upserted(s, c), c) == upserted(s, c),
{
    lemma_name_position(s, c.name);
    let j = name_position(s, c.name);
    let t = upserted(s, c);
    assert forall|k: int| 0 <= k < j implies #[trigger] t[k].name != c.name by {
        assert(t[k] == s[k]);
    }
    lemma_name_position_is(t, c.name, j);
    assert(upserted(t, c) =~= t);
}

/// Saving by name keeps names unique: when no two saved connections share a
/// name, the same holds afterwards, exactly one connection has `c`'s name,
/// and every connection with another name is kept.
pub proof fn lemma_upsert_keeps_names_unique(s: Seq<SavedConnectionView>, c: SavedConnectionView)
    requires
        names_unique(s),
    ensures
        names_unique(upserted(s, c)),
        forall|i: int| 0 <= i < s.len() && s[i].name != c.name ==> upserted(s, c).contains(#[trigger] s[i]),
{
    lemma_name_position(s, c.name);
    let j = name_position(s, c.name);
    let t = upserted(s, c);
    assert forall|a: int, b: int| 0 <= a < t.len() && 0 <= b < t.len() && a != b implies #[trigger] t[a].name
        != #[trigger] t[b].name by {
        if a == j {
            assert(t[b] == s[b]);
        } else if b == j {
            assert(t[a] == s[a]);
        } else {
            assert(t[a] == s[a]);
            assert(t[b] == s[b]);
        }
    }
    assert forall|i: int| 0 <= i < s.len() && s[i].name != c.name implies t.contains(#[trigger] s[i]) by {
        assert(i != j);
        assert(t[i] == s[i]);
    }
}

/// Removing takes out exactly the connection at `index`: the list is one
/// shorter, the connections before `index` are unchanged and each one after
/// it moves down by one place. An index out of range changes nothing.
pub proof fn lemma_remove_takes_one(s: Seq<SavedConnectionView>, index: int)
    ensures
        0 <= index < s.len() ==> {
            &&& removed_at(s, index).len() == s.len() - 1
            &&& forall|k: int| 0 <= k < index ==> #[trigger] removed_at(s, index)[k] == s[k]
            &&& forall|k: int| index <= k < s.len() - 1 ==> #[trigger] removed_at(s, index)[k] == s[k + 1]
        },
        !(0 <= index < s.len()) ==> removed_at(s, index) == s,
{
}

/// Replacing at `index` changes only that position: in range, the result
/// has the same length, holds `c` at `index` and the old connection
/// everywhere else; out of range, nothing changes.
pub proof fn lemma_update_at_replaces_one(s: Seq<SavedConnectionView>, index: int, c: SavedConnectionView)
    ensures
        0 <= index < s.len() ==> {
            &&& updated_at(s, index, c).len() == s.len()
            &&& updated_at(s, index, c)[index] == c
            &&& forall|k: int| 0 <= k < s.len() && k != index ==> #[trigger] updated_at(s, index, c)[k] == s[k]
        },
        !(0 <= index < s.len()) ==> updated_at(s, index, c) == s,
{
}

/// Duplicating saves, by name, a connection equal to the one at `index`
/// except that its name has ` (copy)` appended.
pub proof fn lemma_duplicate_is_copy(s: Seq<SavedConnectionView>, index: int)
    ensures
        0 <= index < s.len() ==> duplicated_at(s, index) == upserted(s, SavedConnectionView {
            name: s[index].name + " (copy)"@,
            ..s[index]
        }),
        !(0 <= index < s.len()) ==> duplicated_at(s, index) == s,
{
    reveal_strlit(" (copy)");
    if 0 <= index < s.len() {
        assert(copy_name(s[index].name) =~= s[index].name + " (copy)"@);
    }
}

/// The name given to a form's connection: the typed name unless it is
/// blank, then `user@host/database`.
pub proof fn lemma_form_name(name: Seq<char>, user: Seq<char>, host: Seq<char>, database: Seq<char>)
    ensures
        trimmed(name).len() > 0 ==> form_connection_name(name, user, host, database) == name,
        trimmed(name).len() == 0 ==> form_connection_name(name, user, host, database) == user + "@"@ + host
            + "/"@ + database,
{
    reveal_strlit("@");
    reveal_strlit("/");
    assert(seq!['@'] =~= "@"@);
    assert(seq!['/'] =~= "/"@);
}

/// The connections the client remembers, in the order they were first saved.
pub struct ConnectionStore {
    connections: Vec<SavedConnection>,
}

impl View for ConnectionStore {
    type V = Seq<SavedConnectionView>;

    closed spec fn view(&self) -> Seq<SavedConnectionView> {
        self.connections@.map_values(|c: SavedConnection| c@)
    }
}

impl ConnectionStore {
    /// A store holding what was read back from storage; nothing readable
    /// (`None`) gives an empty store.
    pub fn from_stored(stored: Option<Vec<SavedConnection>>) -> (store: ConnectionStore)
        ensures
            store@ == (match stored {
                Some(v) => v@.map_values(|c: SavedConnection| c@),
                None => Seq::empty(),
            }),
    {
        match stored {
            Some(connections) => ConnectionStore { connections },
            None => {
                let store = ConnectionStore { connections: Vec::new() };
                assert(store@ =~= Seq::empty());
                store
            },
        }
    }

    /// The saved connections, in order.
    pub fn connections(&self) -> (list: &[SavedConnection])
        ensures
            list@.map_values(|c: SavedConnection| c@) == self@,
    {
        self.connections.as_slice()
    }

    /// Saves `conn` by name: it replaces the first connection with the same
    /// name, or is added at the end.
    pub fn upsert(&mut self, conn: SavedConnection)
        ensures
            final(self)@ == upserted(old(self)@, conn@),
    {
        let ghost s = old(self)@;
        let n = self.connections.len();
        let mut i: usize = 0;
        while i < n && self.connections[i].name != conn.name
            invariant
                n == self.connections.len(),
                s == self@,
                s == self.connections@.map_values(|c: SavedConnection| c@),
                i <= n,
                forall|k: int| 0 <= k < i ==> #[trigger] s[k].name != conn@.name,
            decreases n - i,
        {
            assert(s[i as int] == self.connections@[i as int]@);
            i = i + 1;
        }
        proof {
            if i < n {
                assert(s[i as int] == self.connections@[i as int]@);
            }
            lemma_name_position_is(s, conn@.name, i as int);
        }
        if i < n {
            let ghost c = conn@;
            self.connections.set(i, conn);
            assert(self@ =~= s.update(i as int, c));
        } else {
            let ghost c = conn@;
            self.connections.push(conn);
            assert(self@ =~= s.push(c));
        }
    }

    /// Replaces the connection at `index` by `conn`; does nothing when
    /// `index` is out of range.
    pub fn update_at(&mut self, index: usize, conn: SavedConnection)
        ensures
            final(self)@ == updated_at(old(self)@, index as int, conn@),
    {
        if index < self.connections.len() {
            let ghost c = conn@;
            self.connections.set(index, conn);
            assert(self@ =~= old(self)@.update(index as int, c));
        }
    }

    /// Removes the connection at `index`; does nothing when `index` is out of
    /// range.
    pub fn remove(&mut self, index: usize)
        ensures
            final(self)@ == removed_at(old(self)@, index as int),
    {
        if index < self.connections.len() {
            self.connections.remove(index);
            assert(self@ =~= old(self)@.remove(index as int));
        }
    }

    /// Saves a copy of the connection at `index` named `<name> (copy)`;
    /// does nothing when `index` is out of range.
    pub fn duplicate_at(&mut self, index: usize)
        ensures
            final(self)@ == duplicated_at(old(self)@, index as int),
    {
        if index < self.connections.len() {
            let dup = self.connections[index].duplicate();
            assert(self@[index as int] == self.connections@[index as int]@);
            assert(dup@ == copied(self@[index as int]));
            self.upsert(dup);
        }
    }
}

} // verus!
