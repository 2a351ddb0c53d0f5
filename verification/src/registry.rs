//! The plugin registry: an id-keyed collection of provider manifests with
//! lookup by id, by provider function, and by (action, host).
use vstd::prelude::*;
use crate::manifest::{PluginFunction, PluginManifest, same_function};
use crate::text::{ends_with_ignore_case, eq_ignore_case, lower, str_eq};

verus! {

/// A host pattern matches a host name. A pattern that begins with `*.`
/// matches any host that, ignoring ASCII case, ends with the pattern after
/// the `*` (so `*.example.com` matches `cdn.example.com` but not
/// `example.com` itself); any other pattern must equal the host ignoring
/// ASCII case.
pub open spec fn host_pattern_matches(pattern: Seq<char>, host: Seq<char>) -> bool {
    if pattern.len() >= 2 && pattern[0] == '*' && pattern[1] == '.' {
        let suffix = pattern.skip(1);
        host.len() >= suffix.len() && lower(host.skip(host.len() - suffix.len())) == lower(suffix)
    } else {
        lower(pattern) == lower(host)
    }
}

/// Executable counterpart of `host_pattern_matches`.
pub fn host_matches(pattern: &str, host: &str) -> (r: bool)
    ensures
        r == host_pattern_matches(pattern@, host@),
{
    let len = pattern.unicode_len();
    if len >= 2 && pattern.get_char(0) == '*' && pattern.get_char(1) == '.' {
        let suffix = pattern.substring_char(1, len);
        assert(suffix@ =~= pattern@.skip(1));
        ends_with_ignore_case(host, suffix)
    } else {
        eq_ignore_case(pattern, host)
    }
}

/// The manifest lists `action` among its supported actions.
pub open spec fn manifest_supports_action(m: PluginManifest, action: Seq<char>) -> bool {
    exists|i: int| 0 <= i < m.supported_actions@.len() && #[trigger] m.supported_actions@[i]@
        == action
}

/// The manifest accepts the host: no host constraint, or one of its host
/// patterns matches.
pub open spec fn manifest_accepts_host(m: PluginManifest, host: Option<Seq<char>>) -> bool {
    match host {
        None => true,
        Some(h) => exists|i: int|
            0 <= i < m.supported_hosts@.len() && host_pattern_matches(
                #[trigger] m.supported_hosts@[i]@,
                h,
            ),
    }
}

/// The manifest serves `action` for `host`.
pub open spec fn manifest_matches(m: PluginManifest, action: Seq<char>, host: Option<Seq<char>>) -> bool {
    manifest_supports_action(m, action) && manifest_accepts_host(m, host)
}

/// The view of an optional host argument.
pub open spec fn host_view(host: Option<&str>) -> Option<Seq<char>> {
    match host {
        None => None::<Seq<char>>,
        Some(h) => Some(h@),
    }
}

/// Some manifest in `s` carries the id.
pub open spec fn has_id(s: Seq<PluginManifest>, id: Seq<char>) -> bool {
    exists|i: int| 0 <= i < s.len() && (#[trigger] s[i].id)@ == id
}

/// The index of the manifest carrying the id (meaningful only under
/// `has_id` and id uniqueness).
pub open spec fn index_of_id(s: Seq<PluginManifest>, id: Seq<char>) -> int {
    choose|i: int| 0 <= i < s.len() && (#[trigger] s[i].id)@ == id
}

/// Registered provider manifests, keyed by their unique ids. The sequence
/// view lists manifests in registration order; re-registering an id
/// replaces the manifest in place.
pub struct PluginRegistry {
    plugins: Vec<PluginManifest>,
}

impl View for PluginRegistry {
    type V = Seq<PluginManifest>;

    closed spec fn view(&self) -> Seq<PluginManifest> {
        self.plugins@
    }
}

impl PluginRegistry {
    /// Ids are pairwise distinct.
    pub open spec fn wf(&self) -> bool {
        forall|i: int, j: int|
            0 <= i < j < self@.len() ==> (#[trigger] self@[i].id)@ != (#[trigger] self@[j].id)@
    }

    /// An empty registry.
    pub fn new() -> (r: Self)
        ensures
            r@ =~= Seq::<PluginManifest>::empty(),
            r.wf(),
    {
        PluginRegistry { plugins: Vec::new() }
    }

    /// The index of the manifest carrying `id`, if any.
    fn position_of(&self, id: &str) -> (r: Option<usize>)
        requires
            self.wf(),
        ensures
            match r {
                Some(i) => i < self@.len() && self@[i as int].id@ == id@ && i == index_of_id(
                    self@,
                    id@,
                ),
                None => !has_id(self@, id@),
            },
    {
        let mut i: usize = 0;
        while i < self.plugins.len()
            invariant
                self.wf(),
                0 <= i <= self@.len(),
                forall|j: int| 0 <= j < i ==> (#[trigger] self@[j].id)@ != id@,
            decreases self@.len() - i,
        {
            if str_eq(self.plugins[i].id.as_str(), id) {
                return Some(i);
            }
            i = i + 1;
        }
        None
    }

    /// Register a manifest: replaces the entry with the same id, or appends
    /// a new one.
    pub fn register_plugin(&mut self, manifest: PluginManifest)
        requires
            old(self).wf(),
        ensures
            final(self).wf(),
            has_id(old(self)@, manifest.id@) ==> final(self)@ =~= old(self)@.update(
                index_of_id(old(self)@, manifest.id@),
                manifest,
            ),
            !has_id(old(self)@, manifest.id@) ==> final(self)@ =~= old(self)@.push(manifest),
    {
        let pos = self.position_of(manifest.id.as_str());
        match pos {
            Some(i) => {
                self.plugins.set(i, manifest);
            },
            None => {
                self.plugins.push(manifest);
            },
        }
    }

    /// The ids of all registered plugins, in registration order.
    pub fn get_plugin_ids(&self) -> (r: Vec<String>)
        ensures
            r@.len() == self@.len(),
            forall|i: int| 0 <= i < r@.len() ==> (#[trigger] r@[i])@ == self@[i].id@,
    {
        let mut out: Vec<String> = Vec::new();
        let mut i: usize = 0;
        while i < self.plugins.len()
            invariant
                0 <= i <= self@.len(),
                out@.len() == i,
                forall|j: int| 0 <= j < i ==> (#[trigger] out@[j])@ == self@[j].id@,
            decreases self@.len() - i,
        {
            out.push(self.plugins[i].id.clone());
            i = i + 1;
        }
        out
    }

    /// The manifest registered under `plugin_id`, if any.
    pub fn get_plugin(&self, plugin_id: &str) -> (r: Option<&PluginManifest>)
        requires
            self.wf(),
        ensures
            match r {
                Some(m) => has_id(self@, plugin_id@) && *m == self@[index_of_id(
                    self@,
                    plugin_id@,
                )],
                None => !has_id(self@, plugin_id@),
            },
    {
        match self.position_of(plugin_id) {
            Some(i) => Some(&self.plugins[i]),
            None => None,
        }
    }

    /// All registered manifests, in registration order.
    pub fn get_all_plugins(&self) -> (r: &Vec<PluginManifest>)
        ensures
            r@ == self@,
    {
        &self.plugins
    }

    /// Remove the manifest registered under `plugin_id`; no effect if the
    /// id is unknown.
    pub fn remove_plugin(&mut self, plugin_id: &str)
        requires
            old(self).wf(),
        ensures
            final(self).wf(),
            has_id(old(self)@, plugin_id@) ==> final(self)@ =~= old(self)@.remove(
                index_of_id(old(self)@, plugin_id@),
            ),
            !has_id(old(self)@, plugin_id@) ==> final(self)@ =~= old(self)@,
    {
        let pos = self.position_of(plugin_id);
        match pos {
            Some(i) => {
                self.plugins.remove(i);
            },
            None => {},
        }
    }

    /// All manifests whose provider function equals `function`, in
    /// registration order.
    pub fn find_plugins_by_function(&self, function: PluginFunction) -> (r: Vec<&PluginManifest>)
        ensures
            r@.len() <= self@.len(),
            forall|i: int| 0 <= i < r@.len() ==> same_function(&(#[trigger] r@[i]).plugin_function, &function),
            forall|i: int|
                0 <= i < self@.len() && same_function(&(#[trigger] self@[i]).plugin_function, &function)
                    ==> exists|k: int| 0 <= k < r@.len() && *(#[trigger] r@[k]) == self@[i],
    {
        let mut out: Vec<&PluginManifest> = Vec::new();
        let mut i: usize = 0;
        while i < self.plugins.len()
            invariant
                0 <= i <= self@.len(),
                out@.len() <= i,
                forall|k: int|
                    0 <= k < out@.len() ==> same_function(
                        &(#[trigger] out@[k]).plugin_function,
                        &function,
                    ),
                forall|j: int|
                    0 <= j < i && same_function(&(#[trigger] self@[j]).plugin_function, &function)
                        ==> exists|k: int| 0 <= k < out@.len() && *(#[trigger] out@[k]) == self@[j],
            decreases self@.len() - i,
        {
            let ghost prev = out@;
            if self.plugins[i].plugin_function.matches(&function) {
                out.push(&self.plugins[i]);
                assert(*out@[out@.len() - 1] == self@[i as int]);
            }
            proof {
                assert forall|j: int|
                    0 <= j < i + 1 && same_function(
                        &(#[trigger] self@[j]).plugin_function,
                        &function,
                    ) implies exists|k: int| 0 <= k < out@.len() && *(#[trigger] out@[k])
                    == self@[j] by {
                    if j < i {
                        let k0 = choose|k: int| 0 <= k < prev.len() && *(#[trigger] prev[k])
                            == self@[j];
                        assert(*out@[k0] == self@[j]);
                    } else {
                        assert(*out@[out@.len() - 1] == self@[j]);
                    }
                }
            }
            i = i + 1;
        }
        out
    }

    /// Whether one of the manifest's supported actions equals `action`.
    fn action_supported(m: &PluginManifest, action: &str) -> (r: bool)
        ensures
            r == manifest_supports_action(*m, action@),
    {
        let mut i: usize = 0;
        while i < m.supported_actions.len()
            invariant
                0 <= i <= m.supported_actions@.len(),
                forall|j: int| 0 <= j < i ==> (#[trigger] m.supported_actions@[j])@ != action@,
            decreases m.supported_actions@.len() - i,
        {
            if str_eq(m.supported_actions[i].as_str(), action) {
                return true;
            }
            i = i + 1;
        }
        false
    }

    /// Whether one of the manifest's host patterns matches `host`.
    fn host_accepted(m: &PluginManifest, host: &str) -> (r: bool)
        ensures
            r == manifest_accepts_host(*m, Some(host@)),
    {
        let mut i: usize = 0;
        while i < m.supported_hosts.len()
            invariant
                0 <= i <= m.supported_hosts@.len(),
                forall|j: int|
                    0 <= j < i ==> !host_pattern_matches(
                        (#[trigger] m.supported_hosts@[j])@,
                        host@,
                    ),
            decreases m.supported_hosts@.len() - i,
        {
            if host_matches(m.supported_hosts[i].as_str(), host) {
                return true;
            }
            i = i + 1;
        }
        false
    }

    /// The first registered manifest that lists `action` among its
    /// supported actions and whose host patterns accept `host`; a `host` of
    /// `None` is accepted by every manifest.
    pub fn find_plugin_for_action(&self, action: &str, host: Option<&str>) -> (r: Option<
        &PluginManifest,
    >)
        ensures
            match r {
                Some(m) => exists|i: int|
                    0 <= i < self@.len() && *m == self@[i] && manifest_matches(
                        #[trigger] self@[i],
                        action@,
                        host_view(host),
                    ) && forall|j: int|
                        0 <= j < i ==> !manifest_matches(#[trigger] self@[j], action@, host_view(host)),
                None => forall|i: int|
                    0 <= i < self@.len() ==> !manifest_matches(
                        #[trigger] self@[i],
                        action@,
                        host_view(host),
                    ),
            },
    {
        let mut i: usize = 0;
        while i < self.plugins.len()
            invariant
                0 <= i <= self@.len(),
                forall|j: int|
                    0 <= j < i ==> !manifest_matches(#[trigger] self@[j], action@, host_view(host)),
            decreases self@.len() - i,
        {
            let m = &self.plugins[i];
            if Self::action_supported(m, action) {
                let host_ok = match host {
                    None => true,
                    Some(h) => Self::host_accepted(m, h),
                };
                if host_ok {
                    return Some(m);
                }
            }
            i = i + 1;
        }
        None
    }
}

} // verus!
