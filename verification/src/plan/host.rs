//! Host configuration for a plan.

use vstd::prelude::*;
use crate::text::view_strings;
use crate::text::clone_string;
use crate::text::clone_strings;

verus! {

/// A port number.
pub type Port = u16;

/// The default SSH port.
pub fn default_ssh_port() -> (p: Port)
    ensures
        p == 22,
{
    22
}

/// A single host in a host configuration.
#[derive(Debug)]
pub struct Host {
    host: String,
    port: Port,
    executor: String,
    remote_user: Option<String>,
}

/// The value of a [`Host`].
pub struct HostView {
    pub host: Seq<char>,
    pub port: u16,
    pub executor: Seq<char>,
    pub remote_user: Option<Seq<char>>,
}

/// The view of an optional string.
pub open spec fn view_opt_string(s: Option<String>) -> Option<Seq<char>> {
    match s {
        Some(u) => Some(u@),
        None => None,
    }
}

impl View for Host {
    type V = HostView;

    closed spec fn view(&self) -> HostView {
        HostView {
            host: self.host@,
            port: self.port,
            executor: self.executor@,
            remote_user: view_opt_string(self.remote_user),
        }
    }
}

/// The user that a host is logged into as: its remote user, else `root`.
pub open spec fn real_remote_user_of(h: HostView) -> Seq<char> {
    match h.remote_user {
        Some(u) => u,
        None => "root"@,
    }
}

impl Clone for Host {
    fn clone(&self) -> (r: Self)
        ensures
            r@ == self@,
    {
        Host {
            host: clone_string(&self.host),
            port: self.port,
            executor: clone_string(&self.executor),
            remote_user: match &self.remote_user {
                Some(u) => Some(clone_string(u)),
                None => None,
            },
        }
    }
}

impl Host {
    /// A host reached at `host:port` through the named executor.
    pub fn new(host: String, port: Port, executor: String, remote_user: Option<String>) -> (r: Host)
        ensures
            r@ == (HostView {
                host: host@,
                port: port,
                executor: executor@,
                remote_user: view_opt_string(remote_user),
            }),
    {
        Host { host, port, executor, remote_user }
    }

    /// The address of the host.
    pub fn host(&self) -> (r: &String)
        ensures
            r@ == self@.host,
    {
        &self.host
    }

    /// The port of the host.
    pub fn port(&self) -> (r: &Port)
        ensures
            *r == self@.port,
    {
        &self.port
    }

    /// The name of the executor for the host.
    pub fn executor(&self) -> (r: &String)
        ensures
            r@ == self@.executor,
    {
        &self.executor
    }

    /// The configured remote user, if any.
    pub fn remote_user(&self) -> (r: &Option<String>)
        ensures
            view_opt_string(*r) == self@.remote_user,
    {
        &self.remote_user
    }

    /// The real remote user for this host: the remote user when it is set,
    /// else `root`.
    pub fn real_remote_user(&self) -> (r: String)
        ensures
            r@ == real_remote_user_of(self@),
    {
        match &self.remote_user {
            Some(u) => clone_string(u),
            None => String::from_str("root"),
        }
    }
}

/// The value stored under `key` in a sequence of keyed entries: that of the
/// last entry with that key.
pub open spec fn lookup<V>(entries: Seq<(Seq<char>, V)>, key: Seq<char>) -> Option<V>
    decreases entries.len(),
{
    if entries.len() == 0 {
        None
    } else if entries.last().0 == key {
        Some(entries.last().1)
    } else {
        lookup(entries.drop_last(), key)
    }
}

/// No key occurs twice among the entries.
pub open spec fn keys_distinct<V>(entries: Seq<(Seq<char>, V)>) -> bool {
    forall|i: int, j: int| 0 <= i < j < entries.len() ==> entries[i].0 != entries[j].0
}

/// The entries after storing `value` under `key`: the entry with that key is
/// replaced in place, or the new entry comes last.
pub open spec fn store<V>(entries: Seq<(Seq<char>, V)>, key: Seq<char>, value: V) -> Seq<(Seq<char>, V)> {
    if exists|i: int| 0 <= i < entries.len() && entries[i].0 == key {
        let i = choose|i: int| 0 <= i < entries.len() && entries[i].0 == key;
        entries.update(i, (key, value))
    } else {
        entries.push((key, value))
    }
}

/// An entry with the key is found by `lookup`, and one without it is not.
pub proof fn lemma_lookup_index<V>(entries: Seq<(Seq<char>, V)>, key: Seq<char>)
    requires
        keys_distinct(entries),
    ensures
        (exists|i: int| 0 <= i < entries.len() && entries[i].0 == key) ==> (forall|i: int|
            0 <= i < entries.len() && entries[i].0 == key ==> lookup(entries, key) == Some(
                entries[i].1,
            )),
        !(exists|i: int| 0 <= i < entries.len() && entries[i].0 == key) ==> lookup(entries, key)
            is None,
    decreases entries.len(),
{
    if entries.len() > 0 {
        let init = entries.drop_last();
        assert(keys_distinct(init));
        lemma_lookup_index(init, key);
        if entries.last().0 != key {
            assert forall|i: int| 0 <= i < init.len() && init[i].0 == key implies 0 <= i
                < entries.len() && entries[i].0 == key by {}
            assert forall|i: int| 0 <= i < entries.len() && entries[i].0 == key implies 0 <= i
                < init.len() && init[i].0 == key by {
                assert(i != entries.len() - 1);
            }
        }
    }
}

/// Reading back what was stored gives it; other keys keep their values; keys
/// stay distinct.
pub proof fn lemma_store_lookup<V>(entries: Seq<(Seq<char>, V)>, key: Seq<char>, value: V, other: Seq<char>)
    requires
        keys_distinct(entries),
    ensures
        keys_distinct(store(entries, key, value)),
        lookup(store(entries, key, value), key) == Some(value),
        other != key ==> lookup(store(entries, key, value), other) == lookup(entries, other),
{
    let s = store(entries, key, value);
    if exists|i: int| 0 <= i < entries.len() && entries[i].0 == key {
        let k = choose|i: int| 0 <= i < entries.len() && entries[i].0 == key;
        assert(s == entries.update(k, (key, value)));
        assert(keys_distinct(s));
        lemma_lookup_index(s, key);
        assert(s[k].0 == key);
        lemma_lookup_index(s, other);
        lemma_lookup_index(entries, other);
        if exists|i: int| 0 <= i < entries.len() && entries[i].0 == other {
            let j = choose|i: int| 0 <= i < entries.len() && entries[i].0 == other;
            assert(s[j].0 == other);
        }
        if exists|i: int| 0 <= i < s.len() && s[i].0 == other {
            let j = choose|i: int| 0 <= i < s.len() && s[i].0 == other;
            assert(entries[j].0 == other || j == k);
        }
    } else {
        assert(s == entries.push((key, value)));
        assert(s.drop_last() =~= entries);
        assert(keys_distinct(s));
    }
}

/// A set of hosts and of named groups of host names.
#[derive(Debug)]
pub struct HostConfig {
    hosts: Vec<(String, Host)>,
    groups: Vec<(String, Vec<String>)>,
}

/// The value of a [`HostConfig`]: its keyed hosts and groups, in order.
pub struct HostConfigView {
    pub hosts: Seq<(Seq<char>, HostView)>,
    pub groups: Seq<(Seq<char>, Seq<Seq<char>>)>,
}

/// The views of keyed hosts.
pub open spec fn view_host_entries(v: Seq<(String, Host)>) -> Seq<(Seq<char>, HostView)> {
    v.map_values(|e: (String, Host)| (e.0@, e.1@))
}

/// The views of keyed groups.
pub open spec fn view_group_entries(v: Seq<(String, Vec<String>)>) -> Seq<(Seq<char>, Seq<Seq<char>>)> {
    v.map_values(|e: (String, Vec<String>)| (e.0@, view_strings(e.1@)))
}

impl View for HostConfig {
    type V = HostConfigView;

    closed spec fn view(&self) -> HostConfigView {
        HostConfigView {
            hosts: view_host_entries(self.hosts@),
            groups: view_group_entries(self.groups@),
        }
    }
}

impl HostConfigView {
    /// No host and no group is named twice.
    pub open spec fn wf(self) -> bool {
        keys_distinct(self.hosts) && keys_distinct(self.groups)
    }
}

impl HostConfig {
    /// Every host configuration names no host and no group twice.
    #[verifier::type_invariant]
    pub open spec fn well_formed(self) -> bool {
        self@.wf()
    }
}

/// Finds the index of the entry with the given key.
pub(crate) fn find_key<V>(entries: &Vec<(String, V)>, key: &String) -> (r: Option<usize>)
    ensures
        match r {
            Some(i) => i < entries@.len() && entries@[i as int].0@ == key@,
            None => forall|i: int| 0 <= i < entries@.len() ==> entries@[i].0@ != key@,
        },
{
    let mut i: usize = 0;
    while i < entries.len()
        invariant
            i <= entries@.len(),
            forall|j: int| 0 <= j < i ==> entries@[j].0@ != key@,
        decreases entries.len() - i,
    {
        if entries[i].0 == *key {
            return Some(i);
        }
        i = i + 1;
    }
    None
}

impl Default for HostConfig {
    fn default() -> (r: Self)
        ensures
            r@.hosts.len() == 0,
            r@.groups.len() == 0,
            r@.wf(),
    {
        let hosts: Vec<(String, Host)> = Vec::new();
        let groups: Vec<(String, Vec<String>)> = Vec::new();
        assert(view_host_entries(hosts@) =~= Seq::<(Seq<char>, HostView)>::empty());
        assert(view_group_entries(groups@) =~= Seq::<(Seq<char>, Seq<Seq<char>>)>::empty());
        let r = HostConfig { hosts, groups };
        assert(r@.hosts =~= Seq::<(Seq<char>, HostView)>::empty());
        assert(r@.groups =~= Seq::<(Seq<char>, Seq<Seq<char>>)>::empty());
        r
    }
}

impl HostConfig {
    /// The hosts, keyed by name.
    pub fn hosts(&self) -> (r: &Vec<(String, Host)>)
        ensures
            view_host_entries(r@) == self@.hosts,
    {
        &self.hosts
    }

    /// The groups of host names, keyed by group name.
    pub fn groups(&self) -> (r: &Vec<(String, Vec<String>)>)
        ensures
            view_group_entries(r@) == self@.groups,
    {
        &self.groups
    }

    /// The host stored under `name`, if any.
    pub fn get_host(&self, name: &String) -> (r: Option<&Host>)
        ensures
            match r {
                Some(h) => lookup(self@.hosts, name@) == Some(h@),
                None => lookup(self@.hosts, name@) is None,
            },
    {
        proof {
            use_type_invariant(self);
            lemma_lookup_index(self@.hosts, name@);
        }
        match find_key(&self.hosts, name) {
            Some(i) => {
                assert(self@.hosts[i as int].0 == name@);
                Some(&self.hosts[i].1)
            },
            None => {
                assert forall|i: int| 0 <= i < self@.hosts.len() implies self@.hosts[i].0 != name@ by {
                    assert(self@.hosts[i].0 == self.hosts@[i].0@);
                }
                None
            },
        }
    }

    /// Stores `host` under `name`, replacing a host of that name.
    pub fn insert_host(&mut self, name: String, host: Host)
        ensures
            final(self)@.wf(),
            final(self)@.hosts == store(old(self)@.hosts, name@, host@),
            final(self)@.groups == old(self)@.groups,
    {
        proof {
            use_type_invariant(&*self);
        }
        let ghost key = name@;
        let ghost value = host@;
        let ghost before = self@.hosts;
        proof {
            lemma_store_lookup(before, key, value, key);
        }
        let mut hosts: Vec<(String, Host)> = Vec::new();
        std::mem::swap(&mut hosts, &mut self.hosts);
        assert(view_host_entries(hosts@) == before);
        match find_key(&hosts, &name) {
            Some(i) => {
                assert(before[i as int].0 == key);
                hosts.set(i, (name, host));
                let ghost k = choose|j: int| 0 <= j < before.len() && before[j].0 == key;
                assert(k == i) by {
                    if k != i as int {
                        if k < i { assert(before[k].0 != before[i as int].0); }
                        else { assert(before[i as int].0 != before[k].0); }
                    }
                }
                assert(view_host_entries(hosts@) =~= before.update(i as int, (key, value)));
            },
            None => {
                assert(!exists|j: int| 0 <= j < before.len() && before[j].0 == key) by {
                    assert forall|j: int| 0 <= j < before.len() implies before[j].0 != key by {
                        assert(before[j].0 == hosts@[j].0@);
                    }
                }
                hosts.push((name, host));
                assert(view_host_entries(hosts@) =~= before.push((key, value)));
            },
        }
        self.hosts = hosts;
    }

    /// Stores the group `name` with its member host names, replacing a group
    /// of that name.
    pub fn insert_group(&mut self, name: String, members: Vec<String>)
        ensures
            final(self)@.wf(),
            final(self)@.groups == store(old(self)@.groups, name@, view_strings(members@)),
            final(self)@.hosts == old(self)@.hosts,
    {
        proof {
            use_type_invariant(&*self);
        }
        let ghost key = name@;
        let ghost value = view_strings(members@);
        let ghost before = self@.groups;
        proof {
            lemma_store_lookup(before, key, value, key);
        }
        let mut groups: Vec<(String, Vec<String>)> = Vec::new();
        std::mem::swap(&mut groups, &mut self.groups);
        assert(view_group_entries(groups@) == before);
        match find_key(&groups, &name) {
            Some(i) => {
                assert(before[i as int].0 == key);
                groups.set(i, (name, members));
                let ghost k = choose|j: int| 0 <= j < before.len() && before[j].0 == key;
                assert(k == i) by {
                    if k != i as int {
                        if k < i { assert(before[k].0 != before[i as int].0); }
                        else { assert(before[i as int].0 != before[k].0); }
                    }
                }
                assert(view_group_entries(groups@) =~= before.update(i as int, (key, value)));
            },
            None => {
                assert(!exists|j: int| 0 <= j < before.len() && before[j].0 == key) by {
                    assert forall|j: int| 0 <= j < before.len() implies before[j].0 != key by {
                        assert(before[j].0 == groups@[j].0@);
                    }
                }
                groups.push((name, members));
                assert(view_group_entries(groups@) =~= before.push((key, value)));
            },
        }
        self.groups = groups;
    }
}

impl Clone for HostConfig {
    fn clone(&self) -> (r: Self)
        ensures
            r@ == self@,
    {
        let mut hosts: Vec<(String, Host)> = Vec::new();
        let mut i: usize = 0;
        while i < self.hosts.len()
            invariant
                i <= self.hosts@.len(),
                hosts@.len() == i,
                forall|k: int| 0 <= k < i ==> hosts@[k].0@ == self.hosts@[k].0@ && hosts@[k].1@ == self.hosts@[k].1@,
            decreases self.hosts.len() - i,
        {
            let e = &self.hosts[i];
            hosts.push((clone_string(&e.0), e.1.clone()));
            i = i + 1;
        }
        let mut groups: Vec<(String, Vec<String>)> = Vec::new();
        let mut j: usize = 0;
        while j < self.groups.len()
            invariant
                j <= self.groups@.len(),
                groups@.len() == j,
                forall|k: int| 0 <= k < j ==> groups@[k].0@ == self.groups@[k].0@ && view_strings(groups@[k].1@) == view_strings(self.groups@[k].1@),
            decreases self.groups.len() - j,
        {
            let e = &self.groups[j];
            groups.push((clone_string(&e.0), clone_strings(&e.1)));
            j = j + 1;
        }
        proof {
            use_type_invariant(self);
        }
        assert(view_host_entries(hosts@) =~= self@.hosts);
        assert(view_group_entries(groups@) =~= self@.groups);
        let r = HostConfig { hosts, groups };
        assert(r@.hosts =~= self@.hosts);
        assert(r@.groups =~= self@.groups);
        r
    }
}

} // verus!
