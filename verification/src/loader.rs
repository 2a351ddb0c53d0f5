//! Loading a directory of provider manifests: per-manifest validation
//! with filesystem answers supplied by the caller, partial-success
//! registration, and one aggregate error enumerating every failure.
use vstd::prelude::*;
use crate::manifest::{PluginManifest, clone_opt_string, clone_strings};
use crate::registry::{PluginRegistry, has_id, index_of_id};
use crate::dispatch::first_token;
use crate::text::{contains_seq, eq_ignore_case, lower};

verus! {

/// What the filesystem said about a script manifest's entry point. A
/// manifest whose strategy is not `script` needs no probe; an
/// external-binary manifest needs its binary resolved; any other script
/// manifest needs its script file under the plugin directory.
#[derive(Debug)]
pub enum ProbeAnswer {
    NotNeeded,
    BinaryResolved { path: String },
    BinaryMissing { detail: String },
    ScriptPresent,
    ScriptMissing { script_path: String },
}

/// One manifest file of the plugin directory, parsed or not.
#[derive(Debug)]
pub enum ManifestSource {
    Parsed { manifest: PluginManifest, probe: ProbeAnswer },
    Unparsable { file_name: String, detail: String },
}

/// The probe answers the question the manifest's strategy poses.
pub open spec fn probe_consistent(m: PluginManifest, probe: ProbeAnswer) -> bool {
    if m.plugin_type@ == "script"@ {
        if m.external_binary {
            probe is BinaryResolved || probe is BinaryMissing
        } else {
            probe is ScriptPresent || probe is ScriptMissing
        }
    } else {
        probe is NotNeeded
    }
}

/// Every item's probe matches its manifest.
pub open spec fn sources_consistent(items: Seq<ManifestSource>) -> bool {
    forall|i: int|
        0 <= i < items.len() ==> match #[trigger] items[i] {
            ManifestSource::Parsed { manifest, probe } => probe_consistent(manifest, probe),
            ManifestSource::Unparsable { .. } => true,
        }
}

/// The item registers a plugin rather than contributing a failure.
pub open spec fn item_accepted(it: ManifestSource) -> bool {
    match it {
        ManifestSource::Parsed { probe, .. } => probe is NotNeeded || probe is BinaryResolved
            || probe is ScriptPresent,
        ManifestSource::Unparsable { .. } => false,
    }
}

/// The failure line an invalid item contributes to the aggregate error.
pub open spec fn item_error_message(it: ManifestSource) -> Seq<char> {
    match it {
        ManifestSource::Unparsable { file_name, detail } => "Failed to parse plugin JSON "@
            + file_name@ + ": "@ + detail@,
        ManifestSource::Parsed { manifest, probe } => match probe {
            ProbeAnswer::BinaryMissing { detail } => "External binary '"@ + first_token(
                manifest.entry_point@,
            ) + "' not found for plugin "@ + manifest.id@ + ": "@ + detail@ + (
            match manifest.install_instruction {
                Some(instr) => "\nInstallation instruction: "@ + instr@,
                None => Seq::<char>::empty(),
            }),
            ProbeAnswer::ScriptMissing { script_path } => "Script file "@ + script_path@
                + " not found for plugin "@ + manifest.id@,
            _ => Seq::<char>::empty(),
        },
    }
}

/// The failure lines of the invalid items, in order.
pub open spec fn error_messages(items: Seq<ManifestSource>) -> Seq<Seq<char>>
    decreases items.len(),
{
    if items.len() == 0 {
        Seq::empty()
    } else {
        error_messages(items.drop_last()) + (if item_accepted(items.last()) {
            Seq::<Seq<char>>::empty()
        } else {
            seq![item_error_message(items.last())]
        })
    }
}

/// Lines joined by single newlines.
pub open spec fn joined_lines(msgs: Seq<Seq<char>>) -> Seq<char>
    decreases msgs.len(),
{
    if msgs.len() == 0 {
        Seq::empty()
    } else if msgs.len() == 1 {
        msgs[0]
    } else {
        joined_lines(msgs.drop_last()) + seq!['\n'] + msgs.last()
    }
}

/// `out` is `m` as it is registered: category defaulted to `optional`
/// when empty, and the resolved binary path attached for an
/// external-binary manifest.
pub open spec fn is_loaded_form(m: PluginManifest, probe: ProbeAnswer, out: PluginManifest) -> bool {
    &&& out.id == m.id
    &&& out.name == m.name
    &&& out.version == m.version
    &&& out.supported_hosts@ == m.supported_hosts@
    &&& out.entry_point == m.entry_point
    &&& out.plugin_type == m.plugin_type
    &&& out.plugin_function == m.plugin_function
    &&& out.external_binary == m.external_binary
    &&& out.language == m.language
    &&& out.successful == m.successful
    &&& out.install_instruction == m.install_instruction
    &&& out.supported_actions@ == m.supported_actions@
    &&& out.category@ == if m.category@.len() == 0 {
        "optional"@
    } else {
        m.category@
    }
    &&& out.download_url == m.download_url
    &&& (match probe {
        ProbeAnswer::BinaryResolved { path } => out.binary_path matches Some(bp) && bp@ == path@,
        _ => out.binary_path == m.binary_path,
    })
}

/// Registering `m`: replace the manifest with the same id, or append.
pub open spec fn spec_register(s: Seq<PluginManifest>, m: PluginManifest) -> Seq<PluginManifest> {
    if has_id(s, m.id@) {
        s.update(index_of_id(s, m.id@), m)
    } else {
        s.push(m)
    }
}

/// One load step: an accepted item registers its loaded form, an
/// invalid one changes nothing.
pub open spec fn load_step(
    pre: Seq<PluginManifest>,
    post: Seq<PluginManifest>,
    it: ManifestSource,
) -> bool {
    match it {
        ManifestSource::Parsed { manifest, probe } => if item_accepted(it) {
            exists|out: PluginManifest|
                #[trigger] is_loaded_form(manifest, probe, out) && post == spec_register(pre, out)
        } else {
            post == pre
        },
        ManifestSource::Unparsable { .. } => post == pre,
    }
}

/// The registries a load pass moves through: `trace[i]` is the registry
/// before item `i`, each item advances it by one `load_step`, and the
/// ends of the trace are the registry before and after the whole pass.
pub open spec fn valid_trace(
    trace: Seq<Seq<PluginManifest>>,
    items: Seq<ManifestSource>,
) -> bool {
    trace.len() == items.len() + 1 && forall|i: int|
        0 <= i < items.len() ==> load_step(trace[i], #[trigger] trace[i + 1], items[i])
}

/// The whole run: some trace of registries connects `pre` to `post`,
/// one `load_step` per item, in order.
pub open spec fn load_run(
    pre: Seq<PluginManifest>,
    post: Seq<PluginManifest>,
    items: Seq<ManifestSource>,
) -> bool {
    exists|trace: Seq<Seq<PluginManifest>>|
        #[trigger] valid_trace(trace, items) && trace.first() == pre && trace.last() == post
}

/// Build the manifest as registered: category defaulted, binary path
/// attached when one was resolved.
fn loaded_manifest(m: &PluginManifest, resolved: Option<&String>) -> (out: PluginManifest)
    ensures
        forall|probe: ProbeAnswer|
            (match probe {
                ProbeAnswer::BinaryResolved { path } => resolved matches Some(p) && p@ == path@,
                _ => resolved is None,
            }) ==> is_loaded_form(*m, probe, out),
{
    let category = if m.category.unicode_len() == 0 {
        String::from_str("optional")
    } else {
        m.category.clone()
    };
    let binary_path = match resolved {
        Some(p) => Some(p.clone()),
        None => clone_opt_string(&m.binary_path),
    };
    PluginManifest {
        id: m.id.clone(),
        name: m.name.clone(),
        version: m.version.clone(),
        supported_hosts: clone_strings(&m.supported_hosts),
        entry_point: m.entry_point.clone(),
        plugin_type: m.plugin_type.clone(),
        plugin_function: m.plugin_function.clone(),
        external_binary: m.external_binary,
        language: clone_opt_string(&m.language),
        successful: clone_opt_string(&m.successful),
        install_instruction: clone_opt_string(&m.install_instruction),
        supported_actions: clone_strings(&m.supported_actions),
        category,
        download_url: clone_opt_string(&m.download_url),
        binary_path,
    }
}

/// Build the failure line of an invalid item (`item_error_message`).
fn build_error_message(it: &ManifestSource) -> (r: String)
    requires
        !item_accepted(*it),
    ensures
        r@ == item_error_message(*it),
{
    match it {
        ManifestSource::Unparsable { file_name, detail } => {
            let mut s = String::from_str("Failed to parse plugin JSON ");
            s.append(file_name.as_str());
            s.append(": ");
            s.append(detail.as_str());
            s
        },
        ManifestSource::Parsed { manifest, probe } => {
            match probe {
                ProbeAnswer::BinaryMissing { detail } => {
                    let program = crate::dispatch::first_token_exec(manifest.entry_point.as_str());
                    let mut s = String::from_str("External binary '");
                    s.append(program.as_str());
                    s.append("' not found for plugin ");
                    s.append(manifest.id.as_str());
                    s.append(": ");
                    s.append(detail.as_str());
                    match &manifest.install_instruction {
                        Some(instr) => {
                            s.append("\nInstallation instruction: ");
                            s.append(instr.as_str());
                        },
                        None => {},
                    }
                    s
                },
                ProbeAnswer::ScriptMissing { script_path } => {
                    let mut s = String::from_str("Script file ");
                    s.append(script_path.as_str());
                    s.append(" not found for plugin ");
                    s.append(manifest.id.as_str());
                    s
                },
                _ => {
                    proof {
                        assert(false);
                    }
                    String::new()
                },
            }
        },
    }
}

impl PluginRegistry {
    /// Load a directory's manifests: each valid one registers (its
    /// category defaulted, its binary path attached), each invalid one
    /// contributes a failure line, and the failures — and only they —
    /// come back joined into one aggregate error, so one bad manifest
    /// never blocks its siblings.
    pub fn load_plugins(&mut self, items: Vec<ManifestSource>) -> (r: Option<String>)
        requires
            old(self).wf(),
            sources_consistent(items@),
        ensures
            final(self).wf(),
            load_run(old(self)@, final(self)@, items@),
            r is None <==> error_messages(items@).len() == 0,
            r matches Some(msg) ==> msg@ == joined_lines(error_messages(items@)),
    {
        let ghost pre = self@;
        let ghost mut trace: Seq<Seq<PluginManifest>> = seq![pre];
        let mut errors: Vec<String> = Vec::new();
        let mut i: usize = 0;
        proof {
            assert(errors.deep_view() =~= error_messages(items@.take(0int)));
        }
        while i < items.len()
            invariant
                self.wf(),
                items@.len() == items.len(),
                sources_consistent(items@),
                0 <= i <= items@.len(),
                trace.len() == i + 1,
                trace.first() == pre,
                trace.last() == self@,
                forall|j: int|
                    0 <= j < i ==> load_step(trace[j], #[trigger] trace[j + 1], items@[j]),
                errors.deep_view() == error_messages(items@.take(i as int)),
            decreases items@.len() - i,
        {
            let ghost mid = self@;
            let ghost prev_errors = errors.deep_view();
            match &items[i] {
                ManifestSource::Parsed { manifest, probe } => {
                    match probe {
                        ProbeAnswer::NotNeeded | ProbeAnswer::ScriptPresent => {
                            let out = loaded_manifest(manifest, None);
                            let ghost gout = out;
                            self.register_plugin(out);
                            proof {
                                assert(is_loaded_form(*manifest, *probe, gout));
                                assert(self@ == spec_register(mid, gout));
                                assert(items@[i as int] == ManifestSource::Parsed {
                                    manifest: *manifest,
                                    probe: *probe,
                                });
                            }
                        },
                        ProbeAnswer::BinaryResolved { path } => {
                            let out = loaded_manifest(manifest, Some(path));
                            let ghost gout = out;
                            self.register_plugin(out);
                            proof {
                                assert(is_loaded_form(*manifest, *probe, gout));
                                assert(self@ == spec_register(mid, gout));
                                assert(items@[i as int] == ManifestSource::Parsed {
                                    manifest: *manifest,
                                    probe: *probe,
                                });
                            }
                        },
                        ProbeAnswer::BinaryMissing { .. } | ProbeAnswer::ScriptMissing { .. } => {
                            errors.push(build_error_message(&items[i]));
                        },
                    }
                },
                ManifestSource::Unparsable { .. } => {
                    errors.push(build_error_message(&items[i]));
                },
            }
            proof {
                assert(items@.take(i + 1).drop_last() =~= items@.take(i as int));
                assert(items@.take(i + 1).last() == items@[i as int]);
                assert(load_step(mid, self@, items@[i as int]));
                trace = trace.push(self@);
                assert(trace[i as int] == mid);
                if item_accepted(items@[i as int]) {
                    assert(errors.deep_view() =~= error_messages(items@.take(i + 1)));
                } else {
                    assert(errors.deep_view() =~= prev_errors + seq![
                        item_error_message(items@[i as int]),
                    ]);
                    assert(errors.deep_view() =~= error_messages(items@.take(i + 1)));
                }
            }
            i = i + 1;
        }
        proof {
            assert(items@.take(items@.len() as int) =~= items@);
            assert(valid_trace(trace, items@));
            assert(load_run(pre, self@, items@));
        }
        if errors.len() == 0 {
            None
        } else {
            let mut msg = errors[0].clone();
            let mut k: usize = 1;
            while k < errors.len()
                invariant
                    1 <= k <= errors@.len(),
                    errors@.len() >= 1,
                    errors.deep_view() == error_messages(items@),
                    msg@ == joined_lines(errors.deep_view().take(k as int)),
                decreases errors@.len() - k,
            {
                msg.append("\n");
                msg.append(errors[k].as_str());
                proof {
                    reveal_strlit("\n");
                    assert("\n"@ =~= seq!['\n']);
                    let t = errors.deep_view().take(k + 1);
                    assert(t.drop_last() =~= errors.deep_view().take(k as int));
                    assert(t.last() == errors.deep_view()[k as int]);
                    assert(msg@ =~= joined_lines(t));
                }
                k = k + 1;
            }
            proof {
                assert(errors.deep_view().take(errors@.len() as int) =~= errors.deep_view());
            }
            Some(msg)
        }
    }
}

/// How many items register a plugin.
pub open spec fn count_accepted(items: Seq<ManifestSource>) -> int
    decreases items.len(),
{
    if items.len() == 0 {
        0
    } else {
        count_accepted(items.drop_last()) + (if item_accepted(items.last()) {
            1int
        } else {
            0int
        })
    }
}

/// The id of an accepted item's manifest.
pub open spec fn accepted_id(items: Seq<ManifestSource>, id: Seq<char>) -> bool {
    exists|i: int|
        0 <= i < items.len() && item_accepted(#[trigger] items[i]) && (match items[i] {
            ManifestSource::Parsed { manifest, .. } => manifest.id@ == id,
            ManifestSource::Unparsable { .. } => false,
        })
}

/// The id carried by an item, where it has one.
pub open spec fn item_id(it: ManifestSource) -> Seq<char> {
    match it {
        ManifestSource::Parsed { manifest, .. } => manifest.id@,
        ManifestSource::Unparsable { .. } => Seq::empty(),
    }
}

/// Loading a directory holding distinct, previously unknown ids
/// registers exactly the valid manifests: the registry grows by their
/// number, and afterwards an id is known exactly when it was known
/// before or an accepted item carried it. Together with the aggregate
/// error's exactness this is the partial-success policy: invalid
/// manifests never block their siblings.
pub proof fn lemma_load_partial_success(
    pre: Seq<PluginManifest>,
    post: Seq<PluginManifest>,
    items: Seq<ManifestSource>,
)
    requires
        load_run(pre, post, items),
        forall|i: int, j: int|
            0 <= i < j < items.len() && item_accepted(#[trigger] items[i]) && item_accepted(
                #[trigger] items[j],
            ) ==> item_id(items[i]) != item_id(items[j]),
        forall|i: int|
            0 <= i < items.len() && item_accepted(#[trigger] items[i]) ==> !has_id(
                pre,
                item_id(items[i]),
            ),
    ensures
        post.len() == pre.len() + count_accepted(items),
        forall|id: Seq<char>|
            #[trigger] has_id(post, id) <==> has_id(pre, id) || accepted_id(items, id),
    decreases items.len(),
{
    let trace = choose|trace: Seq<Seq<PluginManifest>>|
        #[trigger] valid_trace(trace, items) && trace.first() == pre && trace.last() == post;
    if items.len() == 0 {
        assert(trace.first() == trace.last());
        assert forall|id: Seq<char>| #[trigger]
            has_id(post, id) <==> has_id(pre, id) || accepted_id(items, id) by {
            if accepted_id(items, id) {
                let w = choose|i: int|
                    0 <= i < items.len() && item_accepted(#[trigger] items[i]) && (
                    match items[i] {
                        ManifestSource::Parsed { manifest, .. } => manifest.id@ == id,
                        ManifestSource::Unparsable { .. } => false,
                    });
                assert(false);
            }
        }
    } else {
        let prefix = items.drop_last();
        let last = items.last();
        let trace2 = trace.drop_last();
        let mid = trace2.last();
        assert forall|j: int|
            0 <= j < prefix.len() implies load_step(trace2[j], #[trigger] trace2[j + 1], prefix[j]) by {
            assert(trace2[j] == trace[j]);
            assert(trace2[j + 1] == trace[j + 1]);
            assert(prefix[j] == items[j]);
            assert(load_step(trace[j], trace[j + 1], items[j]));
        }
        assert(valid_trace(trace2, prefix));
        assert(trace2.first() == pre);
        assert(load_run(pre, mid, prefix));
        assert(load_step(trace[items.len() - 1], trace[items.len() as int], items[items.len() - 1]));
        assert(trace[items.len() as int] == post);
        assert(mid == trace[items.len() - 1]);
        assert(load_step(mid, post, last));
        assert forall|i: int, j: int|
            0 <= i < j < prefix.len() && item_accepted(#[trigger] prefix[i]) && item_accepted(
                #[trigger] prefix[j],
            ) implies item_id(prefix[i]) != item_id(prefix[j]) by {
            assert(prefix[i] == items[i]);
            assert(prefix[j] == items[j]);
        }
        assert forall|i: int|
            0 <= i < prefix.len() && item_accepted(#[trigger] prefix[i]) implies !has_id(
            pre,
            item_id(prefix[i]),
        ) by {
            assert(prefix[i] == items[i]);
        }
        lemma_load_partial_success(pre, mid, prefix);
        if item_accepted(last) {
            let lm = (match last {
                ManifestSource::Parsed { manifest, .. } => manifest,
                ManifestSource::Unparsable { .. } => arbitrary(),
            });
            let lp = (match last {
                ManifestSource::Parsed { probe, .. } => probe,
                ManifestSource::Unparsable { .. } => arbitrary(),
            });
            let out = choose|out: PluginManifest|
                #[trigger] is_loaded_form(lm, lp, out) && post == spec_register(mid, out);
            assert(out.id@ == item_id(last));
            assert(!has_id(pre, item_id(last))) by {
                assert(item_accepted(items[items.len() - 1]));
            }
            assert(!accepted_id(prefix, item_id(last))) by {
                if accepted_id(prefix, item_id(last)) {
                    let w = choose|i: int|
                        0 <= i < prefix.len() && item_accepted(#[trigger] prefix[i]) && (
                        match prefix[i] {
                            ManifestSource::Parsed { manifest, .. } => manifest.id@ == item_id(
                                last,
                            ),
                            ManifestSource::Unparsable { .. } => false,
                        });
                    assert(items[w] == prefix[w]);
                    assert(item_id(items[w]) == item_id(items[items.len() - 1]));
                }
            }
            assert(!has_id(mid, out.id@));
            assert(post == mid.push(out));
            assert(post.len() == pre.len() + count_accepted(items));
            assert forall|id: Seq<char>| #[trigger]
                has_id(post, id) <==> has_id(pre, id) || accepted_id(items, id) by {
                if has_id(post, id) {
                    let w = choose|i: int| 0 <= i < post.len() && (#[trigger] post[i].id)@ == id;
                    if w < mid.len() {
                        assert(post[w] == mid[w]);
                        assert(has_id(mid, id));
                    } else {
                        assert(post[w] == out);
                        assert(accepted_id(items, id)) by {
                            assert(item_accepted(items[items.len() - 1]));
                        }
                    }
                }
                if has_id(pre, id) {
                    assert(has_id(mid, id));
                    let w = choose|i: int| 0 <= i < mid.len() && (#[trigger] mid[i].id)@ == id;
                    assert(post[w] == mid[w]);
                    assert(has_id(post, id));
                }
                if accepted_id(items, id) {
                    let w = choose|i: int|
                        0 <= i < items.len() && item_accepted(#[trigger] items[i]) && (
                        match items[i] {
                            ManifestSource::Parsed { manifest, .. } => manifest.id@ == id,
                            ManifestSource::Unparsable { .. } => false,
                        });
                    if w < items.len() - 1 {
                        assert(prefix[w] == items[w]);
                        assert(accepted_id(prefix, id));
                        assert(has_id(mid, id));
                        let v = choose|i: int| 0 <= i < mid.len() && (#[trigger] mid[i].id)@ == id;
                        assert(post[v] == mid[v]);
                        assert(has_id(post, id));
                    } else {
                        assert(post[post.len() - 1] == out);
                        assert(has_id(post, id));
                    }
                }
            }
        } else {
            assert(post == mid);
            assert forall|id: Seq<char>| #[trigger]
                has_id(post, id) <==> has_id(pre, id) || accepted_id(items, id) by {
                if accepted_id(items, id) {
                    let w = choose|i: int|
                        0 <= i < items.len() && item_accepted(#[trigger] items[i]) && (
                        match items[i] {
                            ManifestSource::Parsed { manifest, .. } => manifest.id@ == id,
                            ManifestSource::Unparsable { .. } => false,
                        });
                    assert(w < items.len() - 1);
                    assert(prefix[w] == items[w]);
                    assert(accepted_id(prefix, id));
                }
                if accepted_id(prefix, id) {
                    let w = choose|i: int|
                        0 <= i < prefix.len() && item_accepted(#[trigger] prefix[i]) && (
                        match prefix[i] {
                            ManifestSource::Parsed { manifest, .. } => manifest.id@ == id,
                            ManifestSource::Unparsable { .. } => false,
                        });
                    assert(items[w] == prefix[w]);
                    assert(accepted_id(items, id));
                }
            }
        }
    }
}

/// Every failure line stands verbatim inside the joined aggregate text.
pub proof fn lemma_joined_contains_each(msgs: Seq<Seq<char>>, k: int)
    requires
        0 <= k < msgs.len(),
    ensures
        contains_seq(joined_lines(msgs), msgs[k]),
    decreases msgs.len(),
{
    if msgs.len() == 1 {
        assert(joined_lines(msgs) == msgs[0]);
        assert(joined_lines(msgs).subrange(0, 0 + msgs[0].len() as int) =~= msgs[0]);
    } else if k == msgs.len() - 1 {
        let j = joined_lines(msgs);
        let p = joined_lines(msgs.drop_last()) + seq!['\n'];
        assert(j == p + msgs.last());
        let off = p.len() as int;
        assert(j.subrange(off, off + msgs[k].len() as int) =~= msgs[k]);
        assert(contains_seq(j, msgs[k]));
    } else {
        lemma_joined_contains_each(msgs.drop_last(), k);
        assert(msgs.drop_last()[k] == msgs[k]);
        let pj = joined_lines(msgs.drop_last());
        let w = choose|i: int|
            0 <= i && i + msgs[k].len() <= pj.len() && #[trigger] pj.subrange(
                i,
                i + msgs[k].len() as int,
            ) == msgs[k];
        let j = joined_lines(msgs);
        assert(j == pj + seq!['\n'] + msgs.last());
        assert(j.subrange(w, w + msgs[k].len() as int) =~= pj.subrange(
            w,
            w + msgs[k].len() as int,
        ));
        assert(contains_seq(j, msgs[k]));
    }
}



/// Where an external binary is looked for, before any filesystem check:
/// a single path, or a glob pattern when the runtime is installed under
/// versioned directories.
#[derive(Debug)]
pub enum BinaryProbe {
    Path { path: String },
    GlobPattern { pattern: String },
}

/// The install hint attached to messages about a missing runtime, keyed
/// by the lower-cased language.
pub open spec fn install_hint(lang: Seq<char>) -> Option<Seq<char>> {
    if lang == "rust"@ {
        Some("Please install Rust via rustup (https://rustup.rs/)"@)
    } else if lang == "go"@ {
        Some("Please install Go (https://golang.org/doc/install)"@)
    } else if lang == "python"@ {
        Some("Please install Python (https://www.python.org/downloads/)"@)
    } else if lang == "node"@ {
        Some("Please install Node.js (https://nodejs.org/)"@)
    } else {
        None
    }
}

/// Lower-case ASCII letters are already lower case.
proof fn lemma_lower_fixed()
    ensures
        lower("rust"@) == "rust"@,
        lower("go"@) == "go"@,
        lower("python"@) == "python"@,
        lower("node"@) == "node"@,
        lower("bash"@) == "bash"@,
        "rust"@ != "go"@ && "rust"@ != "python"@ && "rust"@ != "node"@ && "rust"@ != "bash"@,
        "go"@ != "python"@ && "go"@ != "node"@ && "go"@ != "bash"@,
        "python"@ != "node"@ && "python"@ != "bash"@,
        "node"@ != "bash"@,
{
    reveal_strlit("rust");
    reveal_strlit("go");
    reveal_strlit("python");
    reveal_strlit("node");
    reveal_strlit("bash");
    assert(lower("rust"@) =~= "rust"@);
    assert(lower("go"@) =~= "go"@);
    assert(lower("python"@) =~= "python"@);
    assert(lower("node"@) =~= "node"@);
    assert(lower("bash"@) =~= "bash"@);
    assert("rust"@.len() == 4 && "go"@.len() == 2 && "python"@.len() == 6 && "node"@.len() == 4
        && "bash"@.len() == 4);
    assert("rust"@[0] == 'r' && "node"@[0] == 'n' && "bash"@[0] == 'b');
}

/// Where the binary of an external-binary plugin is expected, by the
/// manifest's language (compared ignoring ASCII case): a well-known
/// per-language install directory under the user's home, the bare
/// program name for shell, or a glob over versioned node installs; an
/// unknown language is a configuration error carrying the install hint.
pub fn binary_candidate(program: &str, language: &str, home_dir: &str) -> (r: Result<
    BinaryProbe,
    String,
>)
    ensures
        lower(language@) == "rust"@ ==> (r matches Ok(p) && p matches BinaryProbe::Path { path }
            && path@ == home_dir@ + "/.cargo/bin/"@ + program@),
        lower(language@) == "go"@ ==> (r matches Ok(p) && p matches BinaryProbe::Path { path }
            && path@ == home_dir@ + "/go/bin/"@ + program@),
        lower(language@) == "python"@ ==> (r matches Ok(p) && p matches BinaryProbe::Path { path }
            && path@ == home_dir@ + "/.local/bin/"@ + program@),
        lower(language@) == "bash"@ ==> (r matches Ok(p) && p matches BinaryProbe::Path { path }
            && path@ == program@),
        lower(language@) == "node"@ ==> (r matches Ok(p) && p matches BinaryProbe::GlobPattern {
            pattern,
        } && pattern@ == home_dir@ + "/.nvm/versions/node/*/bin/"@ + program@),
        lower(language@) != "rust"@ && lower(language@) != "go"@ && lower(language@) != "python"@
            && lower(language@) != "bash"@ && lower(language@) != "node"@ ==> (r matches Err(m)
            && m@ == "Unsupported language: "@ + language@ + ". "@ + (match install_hint(
            lower(language@),
        ) {
            Some(h) => h,
            None => Seq::<char>::empty(),
        })),
{
    proof {
        lemma_lower_fixed();
    }
    if eq_ignore_case(language, "rust") {
        let mut path = String::from_str(home_dir);
        path.append("/.cargo/bin/");
        path.append(program);
        Ok(BinaryProbe::Path { path })
    } else if eq_ignore_case(language, "go") {
        let mut path = String::from_str(home_dir);
        path.append("/go/bin/");
        path.append(program);
        Ok(BinaryProbe::Path { path })
    } else if eq_ignore_case(language, "python") {
        let mut path = String::from_str(home_dir);
        path.append("/.local/bin/");
        path.append(program);
        Ok(BinaryProbe::Path { path })
    } else if eq_ignore_case(language, "bash") {
        Ok(BinaryProbe::Path { path: String::from_str(program) })
    } else if eq_ignore_case(language, "node") {
        let mut pattern = String::from_str(home_dir);
        pattern.append("/.nvm/versions/node/*/bin/");
        pattern.append(program);
        Ok(BinaryProbe::GlobPattern { pattern })
    } else {
        let mut m = String::from_str("Unsupported language: ");
        m.append(language);
        m.append(". ");
        let hint = install_hint_exec(language);
        match hint {
            Some(h) => {
                m.append(h);
            },
            None => {},
        }
        Err(m)
    }
}

/// Executable counterpart of `install_hint`, keyed ignoring ASCII case.
fn install_hint_exec(language: &str) -> (r: Option<&'static str>)
    ensures
        match r {
            Some(h) => install_hint(lower(language@)) == Some(h@),
            None => install_hint(lower(language@)) is None,
        },
{
    proof {
        lemma_lower_fixed();
    }
    if eq_ignore_case(language, "rust") {
        Some("Please install Rust via rustup (https://rustup.rs/)")
    } else if eq_ignore_case(language, "go") {
        Some("Please install Go (https://golang.org/doc/install)")
    } else if eq_ignore_case(language, "python") {
        Some("Please install Python (https://www.python.org/downloads/)")
    } else if eq_ignore_case(language, "node") {
        Some("Please install Node.js (https://nodejs.org/)")
    } else {
        None
    }
}

/// The failure reported when neither the language directory nor the
/// `PATH` lookup yielded the binary, with the install hint where the
/// language has one.
pub fn binary_not_found_message(program: &str, language: Option<&str>) -> (r: String)
    ensures
        r@ == "Binary '"@ + program@ + "' not found in "@ + (match language {
            Some(l) => l@,
            None => "any language-specific directory"@,
        }) + " or PATH. "@ + (match language {
            Some(l) => match install_hint(lower(l@)) {
                Some(h) => h,
                None => Seq::<char>::empty(),
            },
            None => Seq::<char>::empty(),
        }),
{
    let mut m = String::from_str("Binary '");
    m.append(program);
    m.append("' not found in ");
    match language {
        Some(l) => m.append(l),
        None => m.append("any language-specific directory"),
    }
    m.append(" or PATH. ");
    match language {
        Some(l) => {
            match install_hint_exec(l) {
                Some(h) => {
                    m.append(h);
                },
                None => {},
            }
        },
        None => {},
    }
    m
}

} // verus!
