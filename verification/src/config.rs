//! Connection profiles and the list that holds them.
use vstd::prelude::*;

verus! {

/// One remote-connection profile.
#[derive(Debug)]
pub struct Host {
    pub name: String,
    pub user: String,
    pub host: String,
    pub port: Option<u16>,
    pub password: Option<String>,
    pub command: Option<String>,
}

/// What a profile holds, as plain text.
pub struct HostView {
    pub name: Seq<char>,
    pub user: Seq<char>,
    pub host: Seq<char>,
    pub port: Option<u16>,
    pub password: Option<Seq<char>>,
    pub command: Option<Seq<char>>,
}

/// The characters of an optional string.
pub open spec fn opt_text(s: Option<String>) -> Option<Seq<char>> {
    match s {
        Some(t) => Some(t@),
        None => None,
    }
}

/// What an optional profile holds.
pub open spec fn opt_host_view(h: Option<Host>) -> Option<HostView> {
    match h {
        Some(host) => Some(host@),
        None => None,
    }
}

impl View for Host {
    type V = HostView;

    open spec fn view(&self) -> HostView {
        HostView {
            name: self.name@,
            user: self.user@,
            host: self.host@,
            port: self.port,
            password: opt_text(self.password),
            command: opt_text(self.command),
        }
    }
}

impl HostView {
    /// The port that is shown and dialled: 22 where none is set.
    pub open spec fn port_or_default(self) -> u16 {
        match self.port {
            Some(p) => p,
            None => 22,
        }
    }

    /// A profile can be taken into the list only with a user and an address.
    pub open spec fn is_complete(self) -> bool {
        self.user.len() > 0 && self.host.len() > 0
    }
}

/// Copies an optional string.
pub fn copy_opt_string(s: &Option<String>) -> (r: Option<String>)
    ensures
        opt_text(r) == opt_text(*s),
{
    match s {
        Some(t) => Some(t.clone()),
        None => None,
    }
}

impl Clone for Host {
    fn clone(&self) -> (r: Self)
        ensures
            r@ == self@,
    {
        Host {
            name: self.name.clone(),
            user: self.user.clone(),
            host: self.host.clone(),
            port: self.port,
            password: copy_opt_string(&self.password),
            command: copy_opt_string(&self.command),
        }
    }
}

impl Host {
    /// The port that is shown and dialled: 22 where none is set.
    pub fn port_or_default(&self) -> (p: u16)
        ensures
            p == self@.port_or_default(),
    {
        match self.port {
            Some(p) => p,
            None => 22,
        }
    }

    /// Whether the profile names both a user and an address.
    pub fn is_complete(&self) -> (b: bool)
        ensures
            b == self@.is_complete(),
    {
        !self.user.as_str().is_empty() && !self.host.as_str().is_empty()
    }
}

/// The profiles of a list, in order.
pub open spec fn host_views(hosts: Seq<Host>) -> Seq<HostView> {
    hosts.map_values(|h: Host| h@)
}

/// The list of profiles that is kept between runs.
#[derive(Debug)]
pub struct Config {
    pub hosts: Vec<Host>,
}

impl View for Config {
    type V = Seq<HostView>;

    open spec fn view(&self) -> Seq<HostView> {
        host_views(self.hosts@)
    }
}

impl Clone for Config {
    fn clone(&self) -> (r: Self)
        ensures
            r@ == self@,
    {
        let mut hosts: Vec<Host> = Vec::new();
        let mut i: usize = 0;
        while i < self.hosts.len()
            invariant
                i <= self.hosts.len(),
                hosts@.len() == i,
                forall|j: int| 0 <= j < i ==> (#[trigger] hosts@[j])@ == self.hosts@[j]@,
            decreases self.hosts.len() - i,
        {
            hosts.push(self.hosts[i].clone());
            i = i + 1;
        }
        proof {
            assert(host_views(hosts@) =~= host_views(self.hosts@));
        }
        Config { hosts }
    }
}

impl Config {
    /// Appends a profile.
    pub fn add_host(&mut self, host: Host)
        ensures
            final(self)@ == old(self)@.push(host@),
    {
        self.hosts.push(host);
    }

    /// Removes the profile at `index`; an index beyond the list changes
    /// nothing.
    pub fn remove_host(&mut self, index: usize)
        ensures
            index < old(self)@.len() ==> final(self)@ == old(self)@.remove(index as int),
            index >= old(self)@.len() ==> final(self)@ == old(self)@,
    {
        if index < self.hosts.len() {
            self.hosts.remove(index);
        }
    }

    /// Replaces the profile at `index`; an index beyond the list changes
    /// nothing.
    pub fn update_host(&mut self, index: usize, host: Host)
        ensures
            index < old(self)@.len() ==> final(self)@ == old(self)@.update(index as int, host@),
            index >= old(self)@.len() ==> final(self)@ == old(self)@,
    {
        if index < self.hosts.len() {
            self.hosts[index] = host;
        }
    }
}

} // verus!
