use vstd::prelude::*;
use vstd::string::*;

verus! {

/// An optional string field, seen as an optional character sequence.
pub open spec fn opt_view(o: Option<String>) -> Option<Seq<char>> {
    match o {
        Some(s) => Some(s@),
        None => None,
    }
}

/// Override-wins-if-present: a field set in the later layer replaces the
/// earlier one; an absent field inherits.
pub open spec fn merge_field(base: Option<Seq<char>>, over: Option<Seq<char>>) -> Option<
    Seq<char>,
> {
    if over is Some {
        over
    } else {
        base
    }
}

/// The daemon settings as plain values.
pub struct DaemonView {
    pub endpoint: Option<Seq<char>>,
    pub key_path: Option<Seq<char>>,
    pub config_dir: Option<Seq<char>>,
}

/// Each daemon field is resolved on its own.
pub open spec fn merge_daemon(base: DaemonView, over: DaemonView) -> DaemonView {
    DaemonView {
        endpoint: merge_field(base.endpoint, over.endpoint),
        key_path: merge_field(base.key_path, over.key_path),
        config_dir: merge_field(base.config_dir, over.config_dir),
    }
}

/// Settings of the daemon itself; every field may be absent, meaning
/// "inherit from a lower layer".
#[derive(Clone, Debug)]
pub struct DaemonConfig {
    pub endpoint: Option<String>,
    pub key_path: Option<String>,
    pub config_dir: Option<String>,
}

impl View for DaemonConfig {
    type V = DaemonView;

    open spec fn view(&self) -> DaemonView {
        DaemonView {
            endpoint: opt_view(self.endpoint),
            key_path: opt_view(self.key_path),
            config_dir: opt_view(self.config_dir),
        }
    }
}

fn copy_opt_string(o: &Option<String>) -> (r: Option<String>)
    ensures
        r == *o,
{
    match o {
        Some(s) => Some(s.clone()),
        None => None,
    }
}

fn pick_field(base: &Option<String>, over: &Option<String>) -> (r: Option<String>)
    ensures
        opt_view(r) == merge_field(opt_view(*base), opt_view(*over)),
{
    if over.is_some() {
        copy_opt_string(over)
    } else {
        copy_opt_string(base)
    }
}

impl DaemonConfig {
    /// A field-for-field copy.
    pub fn copy(&self) -> (r: DaemonConfig)
        ensures
            r == *self,
    {
        DaemonConfig {
            endpoint: copy_opt_string(&self.endpoint),
            key_path: copy_opt_string(&self.key_path),
            config_dir: copy_opt_string(&self.config_dir),
        }
    }

    /// Merges `other` over `self`: each field takes `other`'s value where it
    /// is present, and `self`'s value otherwise.
    pub fn merge(&self, other: &Self) -> (r: Self)
        ensures
            r@ == merge_daemon(self@, other@),
    {
        DaemonConfig {
            endpoint: pick_field(&self.endpoint, &other.endpoint),
            key_path: pick_field(&self.key_path, &other.key_path),
            config_dir: pick_field(&self.config_dir, &other.config_dir),
        }
    }
}

/// A peer's settings as plain values.
pub struct PeerView {
    pub public_key: Seq<char>,
    pub endpoint: Option<Seq<char>>,
}

/// Settings of one named peer: its public key and, optionally, where to
/// reach it.
#[derive(Clone, Debug)]
pub struct PeerConfig {
    pub public_key: String,
    pub endpoint: Option<String>,
}

impl View for PeerConfig {
    type V = PeerView;

    open spec fn view(&self) -> PeerView {
        PeerView { public_key: self.public_key@, endpoint: opt_view(self.endpoint) }
    }
}

impl PeerConfig {
    /// A field-for-field copy.
    pub fn copy(&self) -> (r: PeerConfig)
        ensures
            r == *self,
    {
        PeerConfig { public_key: self.public_key.clone(), endpoint: copy_opt_string(&self.endpoint) }
    }
}

/// Some entry before position `n` is named `k`.
spec fn named_before(entries: Seq<(String, PeerConfig)>, n: int, k: Seq<char>) -> bool {
    exists|j: int| 0 <= j < n && entries[j].0@ == k
}

/// Each entry stands in the model, each name of the model has an entry,
/// and no name occurs twice.
pub open spec fn table_matches(entries: Seq<(String, PeerConfig)>, model: Map<Seq<char>, PeerView>) -> bool {
    &&& forall|i: int|
        0 <= i < entries.len() ==> {
            &&& #[trigger] model.contains_key(entries[i].0@)
            &&& model[entries[i].0@] == entries[i].1@
        }
    &&& forall|k: Seq<char>|
        #[trigger] model.contains_key(k) ==> exists|i: int| 0 <= i < entries.len() && entries[i].0@ == k
    &&& forall|i: int, j: int|
        0 <= i < entries.len() && 0 <= j < entries.len() && i != j ==> entries[i].0@ != entries[j].0@
}

/// The peer table: names, each unique, mapped to their settings.
pub struct PeerTable {
    entries: Vec<(String, PeerConfig)>,
    model: Ghost<Map<Seq<char>, PeerView>>,
}

impl View for PeerTable {
    type V = Map<Seq<char>, PeerView>;

    closed spec fn view(&self) -> Map<Seq<char>, PeerView> {
        self.model@
    }
}

impl PeerTable {
    #[verifier::type_invariant]
    closed spec fn well_formed(self) -> bool {
        table_matches(self.entries@, self.model@)
    }

    /// An empty table.
    pub fn new() -> (r: PeerTable)
        ensures
            r@ == Map::<Seq<char>, PeerView>::empty(),
    {
        PeerTable { entries: Vec::new(), model: Ghost(Map::empty()) }
    }

    /// Where `name` stands in the entries, if anywhere.
    fn position(&self, name: &String) -> (r: Option<usize>)
        ensures
            match r {
                Some(i) => i < self.entries@.len() && self.entries@[i as int].0@ == name@,
                None => forall|i: int|
                    0 <= i < self.entries@.len() ==> self.entries@[i].0@ != name@,
            },
    {
        let mut i: usize = 0;
        while i < self.entries.len()
            invariant
                i <= self.entries@.len(),
                forall|j: int| 0 <= j < i ==> self.entries@[j].0@ != name@,
            decreases self.entries@.len() - i,
        {
            if self.entries[i].0 == *name {
                return Some(i);
            }
            i = i + 1;
        }
        None
    }

    /// The settings of the peer called `name`, if it is in the table.
    pub fn get(&self, name: &String) -> (r: Option<&PeerConfig>)
        ensures
            match r {
                Some(p) => self@.contains_key(name@) && p@ == self@[name@],
                None => !self@.contains_key(name@),
            },
    {
        proof {
            use_type_invariant(self);
        }
        match self.position(name) {
            Some(i) => {
                proof {
                    assert(self.model@.contains_key(self.entries@[i as int].0@));
                }
                Some(&self.entries[i].1)
            },
            None => None,
        }
    }

    /// Adds the peer `name`, replacing whole any entry of that name.
    pub fn insert(&mut self, name: String, peer: PeerConfig)
        ensures
            final(self)@ == old(self)@.insert(name@, peer@),
    {
        proof {
            use_type_invariant(&*self);
        }
        let pos = self.position(&name);
        let mut table = PeerTable::new();
        std::mem::swap(self, &mut table);
        proof {
            use_type_invariant(&table);
        }
        let PeerTable { mut entries, model } = table;
        let ghost old_entries = entries@;
        let ghost key = name@;
        let ghost pv = peer@;
        let ghost new_model = model@.insert(name@, peer@);
        match pos {
            Some(i) => {
                entries.set(i, (name, peer));
                proof {
                    assert forall|n: int| 0 <= n < entries@.len() implies {
                        &&& #[trigger] new_model.contains_key(entries@[n].0@)
                        &&& new_model[entries@[n].0@] == entries@[n].1@
                    } by {
                        if n != i {
                            assert(entries@[n] == old_entries[n]);
                            assert(old_entries[n].0@ != old_entries[i as int].0@);
                        }
                    }
                    assert forall|a: int, b: int|
                        0 <= a < entries@.len() && 0 <= b < entries@.len() && a != b
                        implies entries@[a].0@ != entries@[b].0@ by {
                        if a != i {
                            assert(entries@[a] == old_entries[a]);
                        }
                        if b != i {
                            assert(entries@[b] == old_entries[b]);
                        }
                    }
                    assert forall|k: Seq<char>| #[trigger] new_model.contains_key(k) implies exists|
                        n: int,
                    | 0 <= n < entries@.len() && entries@[n].0@ == k by {
                        if k != key {
                            let n = choose|n: int|
                                0 <= n < old_entries.len() && old_entries[n].0@ == k;
                            assert(entries@[n] == old_entries[n]);
                        } else {
                            assert(entries@[i as int].0@ == k);
                        }
                    }
                }
            },
            None => {
                entries.push((name, peer));
                proof {
                    assert forall|n: int| 0 <= n < entries@.len() implies {
                        &&& #[trigger] new_model.contains_key(entries@[n].0@)
                        &&& new_model[entries@[n].0@] == entries@[n].1@
                    } by {
                        if n < old_entries.len() {
                            assert(entries@[n] == old_entries[n]);
                        }
                    }
                    assert forall|a: int, b: int|
                        0 <= a < entries@.len() && 0 <= b < entries@.len() && a != b
                        implies entries@[a].0@ != entries@[b].0@ by {
                        if a < old_entries.len() {
                            assert(entries@[a] == old_entries[a]);
                        }
                        if b < old_entries.len() {
                            assert(entries@[b] == old_entries[b]);
                        }
                    }
                    assert forall|k: Seq<char>| #[trigger] new_model.contains_key(k) implies exists|
                        n: int,
                    | 0 <= n < entries@.len() && entries@[n].0@ == k by {
                        if k != key {
                            let n = choose|n: int|
                                0 <= n < old_entries.len() && old_entries[n].0@ == k;
                            assert(entries@[n] == old_entries[n]);
                        } else {
                            assert(entries@[old_entries.len() as int].0@ == k);
                        }
                    }
                }
            },
        }
        proof {
            assert(table_matches(entries@, new_model));
        }
        *self = PeerTable { entries, model: Ghost(new_model) };
    }

    /// The entries, in no particular order: exactly the table's peers, each
    /// name once.
    pub fn entries(&self) -> (r: &[(String, PeerConfig)])
        ensures
            table_matches(r@, self@),
    {
        proof {
            use_type_invariant(self);
        }
        self.entries.as_slice()
    }

    /// Inserts every entry of `from`, each replacing whole the entry of the
    /// same name.
    fn insert_all(&mut self, from: &PeerTable)
        ensures
            final(self)@ == old(self)@.union_prefer_right(from@),
    {
        proof {
            use_type_invariant(from);
        }
        let ghost start = self@;
        let mut i: usize = 0;
        while i < from.entries.len()
            invariant
                i <= from.entries@.len(),
                table_matches(from.entries@, from@),
                forall|k: Seq<char>|
                    #[trigger] self@.contains_key(k) == (start.contains_key(k) || named_before(
                        from.entries@,
                        i as int,
                        k,
                    )),
                forall|k: Seq<char>|
                    #[trigger] self@.contains_key(k) ==> self@[k] == if named_before(
                        from.entries@,
                        i as int,
                        k,
                    ) {
                        from@[k]
                    } else {
                        start[k]
                    },
            decreases from.entries@.len() - i,
        {
            let ghost key = from.entries@[i as int].0@;
            proof {
                assert(from@.contains_key(key));
            }
            let name = from.entries[i].0.clone();
            let peer = from.entries[i].1.copy();
            self.insert(name, peer);
            i = i + 1;
            proof {
                assert forall|k: Seq<char>| #[trigger]
                    named_before(from.entries@, i as int, k) == (k == key || named_before(
                        from.entries@,
                        i - 1,
                        k,
                    )) by {
                    if k == key {
                        assert(from.entries@[i - 1].0@ == k);
                    }
                }
            }
        }
        proof {
            assert forall|k: Seq<char>| #[trigger] from@.contains_key(k) == named_before(
                from.entries@,
                from.entries@.len() as int,
                k,
            ) by {
                if named_before(from.entries@, from.entries@.len() as int, k) {
                    let j = choose|j: int| 0 <= j < from.entries@.len() && from.entries@[j].0@ == k;
                    assert(from@.contains_key(from.entries@[j].0@));
                }
            }
            assert(self@ =~= start.union_prefer_right(from@));
        }
    }

    /// The union of the two tables; where a name is in both, `other`'s entry
    /// replaces `self`'s whole.
    pub fn merge(&self, other: &PeerTable) -> (r: PeerTable)
        ensures
            r@ == self@.union_prefer_right(other@),
    {
        let mut r = PeerTable::new();
        r.insert_all(self);
        r.insert_all(other);
        proof {
            assert(Map::<Seq<char>, PeerView>::empty().union_prefer_right(self@) =~= self@);
        }
        r
    }
}

/// A whole document as plain values.
pub struct ConfigView {
    pub daemon: Option<DaemonView>,
    pub peers: Option<Map<Seq<char>, PeerView>>,
}

/// Optional daemon settings, seen as plain values.
pub open spec fn daemon_view(d: Option<DaemonConfig>) -> Option<DaemonView> {
    match d {
        Some(d) => Some(d@),
        None => None,
    }
}

/// An optional peer table, seen as a map.
pub open spec fn table_view(t: Option<PeerTable>) -> Option<Map<Seq<char>, PeerView>> {
    match t {
        Some(t) => Some(t@),
        None => None,
    }
}

/// The daemon settings of a merge: absent only where both sides are absent.
pub open spec fn merge_daemons(base: Option<DaemonView>, over: Option<DaemonView>) -> Option<
    DaemonView,
> {
    match (base, over) {
        (Some(b), Some(o)) => Some(merge_daemon(b, o)),
        (Some(b), None) => Some(b),
        (None, o) => o,
    }
}

/// The peers of a document; an absent table has no peers.
pub open spec fn peers_of(p: Option<Map<Seq<char>, PeerView>>) -> Map<Seq<char>, PeerView> {
    match p {
        Some(m) => m,
        None => Map::empty(),
    }
}

/// `over` layered onto `base`.
pub open spec fn merge_config(base: ConfigView, over: ConfigView) -> ConfigView {
    ConfigView {
        daemon: merge_daemons(base.daemon, over.daemon),
        peers: Some(peers_of(base.peers).union_prefer_right(peers_of(over.peers))),
    }
}

/// Two documents say the same: the same daemon settings and the same peers,
/// an absent peer table counting as an empty one.
pub open spec fn same_document(a: ConfigView, b: ConfigView) -> bool {
    a.daemon == b.daemon && peers_of(a.peers) == peers_of(b.peers)
}

/// The compiled-in default document: no peers, and daemon settings that name
/// only the fragment directory.
pub open spec fn default_view() -> ConfigView {
    ConfigView {
        daemon: Some(DaemonView { endpoint: None, key_path: None, config_dir: Some("conf.d"@) }),
        peers: None,
    }
}

/// The endpoint that a document's daemon settings give, if any.
pub open spec fn endpoint_of(c: ConfigView) -> Option<Seq<char>> {
    match c.daemon {
        Some(d) => d.endpoint,
        None => None,
    }
}

/// The key path that a document's daemon settings give, if any.
pub open spec fn key_path_of(c: ConfigView) -> Option<Seq<char>> {
    match c.daemon {
        Some(d) => d.key_path,
        None => None,
    }
}

/// The fragment directory that a document's daemon settings name, if any.
pub open spec fn config_dir_of(c: ConfigView) -> Option<Seq<char>> {
    match c.daemon {
        Some(d) => d.config_dir,
        None => None,
    }
}

/// A configuration document: daemon settings and a table of named peers,
/// either of which may be absent.
pub struct Config {
    pub daemon: Option<DaemonConfig>,
    pub peers: Option<PeerTable>,
}

impl View for Config {
    type V = ConfigView;

    open spec fn view(&self) -> ConfigView {
        ConfigView { daemon: daemon_view(self.daemon), peers: table_view(self.peers) }
    }
}

impl Default for Config {
    /// The compiled-in default document.
    fn default() -> (r: Self)
        ensures
            r@ == default_view(),
    {
        let config_dir = String::from_str("conf.d");
        proof {
            reveal_strlit("conf.d");
        }
        Config {
            daemon: Some(DaemonConfig { endpoint: None, key_path: None, config_dir: Some(config_dir) }),
            peers: None,
        }
    }
}

impl Config {
    /// Layers `other` over `self` into a new document. Daemon settings merge
    /// field by field, `other` winning where it has a value; the peer table is
    /// the union of both, `other`'s entry replacing `self`'s whole where a
    /// name is in both. The result always has a peer table.
    pub fn merge(&self, other: &Self) -> (r: Self)
        ensures
            r@ == merge_config(self@, other@),
    {
        let daemon = match &self.daemon {
            Some(self_daemon) => match &other.daemon {
                Some(other_daemon) => Some(self_daemon.merge(other_daemon)),
                None => Some(self_daemon.copy()),
            },
            None => match &other.daemon {
                Some(other_daemon) => Some(other_daemon.copy()),
                None => None,
            },
        };
        let empty = PeerTable::new();
        let base_peers = match &self.peers {
            Some(t) => t,
            None => &empty,
        };
        let over_peers = match &other.peers {
            Some(t) => t,
            None => &empty,
        };
        Config { daemon, peers: Some(base_peers.merge(over_peers)) }
    }
}

} // verus!
