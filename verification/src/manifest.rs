//! Provider descriptors: what a plugin declares about itself, and the
//! provider-function tag used to group plugins.
use vstd::prelude::*;

verus! {

/// The role a provider fulfils. `Custom` is an open variant carrying a
/// free-form tag.
#[derive(Debug)]
pub enum PluginFunction {
    Download,
    Translate,
    Emulation,
    Custom(String),
}

/// Two provider functions denote the same role; `Custom` tags are compared
/// by their text.
pub open spec fn same_function(a: &PluginFunction, b: &PluginFunction) -> bool {
    match (a, b) {
        (PluginFunction::Download, PluginFunction::Download) => true,
        (PluginFunction::Translate, PluginFunction::Translate) => true,
        (PluginFunction::Emulation, PluginFunction::Emulation) => true,
        (PluginFunction::Custom(x), PluginFunction::Custom(y)) => x@ == y@,
        _ => false,
    }
}

impl PluginFunction {
    /// Executable counterpart of `same_function`.
    pub fn matches(&self, other: &PluginFunction) -> (r: bool)
        ensures
            r == same_function(self, other),
    {
        match (self, other) {
            (PluginFunction::Download, PluginFunction::Download) => true,
            (PluginFunction::Translate, PluginFunction::Translate) => true,
            (PluginFunction::Emulation, PluginFunction::Emulation) => true,
            (PluginFunction::Custom(x), PluginFunction::Custom(y)) => *x == *y,
            _ => false,
        }
    }
}

impl Clone for PluginFunction {
    fn clone(&self) -> (r: Self)
        ensures
            r == *self,
    {
        match self {
            PluginFunction::Download => PluginFunction::Download,
            PluginFunction::Translate => PluginFunction::Translate,
            PluginFunction::Emulation => PluginFunction::Emulation,
            PluginFunction::Custom(tag) => PluginFunction::Custom(tag.clone()),
        }
    }
}

/// Declarative descriptor of one provider. The dispatch strategy
/// (`plugin_type`) is one of `"script"`, `"command"` or `"native"`; any other
/// value is rejected at dispatch time. `binary_path` is derived when the
/// manifest is loaded and never persisted.
#[derive(Debug)]
pub struct PluginManifest {
    pub id: String,
    pub name: String,
    pub version: String,
    pub supported_hosts: Vec<String>,
    pub entry_point: String,
    pub plugin_type: String,
    pub plugin_function: PluginFunction,
    pub external_binary: bool,
    pub language: Option<String>,
    pub successful: Option<String>,
    pub install_instruction: Option<String>,
    pub supported_actions: Vec<String>,
    pub category: String,
    pub download_url: Option<String>,
    pub binary_path: Option<String>,
}

/// Clone a vector of strings; the result holds equal strings in the same
/// order.
pub fn clone_strings(v: &Vec<String>) -> (r: Vec<String>)
    ensures
        r@ =~= v@,
{
    let mut out: Vec<String> = Vec::new();
    let mut i: usize = 0;
    while i < v.len()
        invariant
            0 <= i <= v@.len(),
            out@.len() == i,
            forall|j: int| 0 <= j < i ==> out@[j] == v@[j],
        decreases v@.len() - i,
    {
        out.push(v[i].clone());
        i = i + 1;
    }
    out
}

/// Clone an optional string.
pub fn clone_opt_string(v: &Option<String>) -> (r: Option<String>)
    ensures
        r == *v,
{
    match v {
        Some(s) => Some(s.clone()),
        None => None,
    }
}

impl Clone for PluginManifest {
    fn clone(&self) -> (r: Self)
        ensures
            r.id == self.id,
            r.name == self.name,
            r.version == self.version,
            r.supported_hosts@ =~= self.supported_hosts@,
            r.entry_point == self.entry_point,
            r.plugin_type == self.plugin_type,
            r.plugin_function == self.plugin_function,
            r.external_binary == self.external_binary,
            r.language == self.language,
            r.successful == self.successful,
            r.install_instruction == self.install_instruction,
            r.supported_actions@ =~= self.supported_actions@,
            r.category == self.category,
            r.download_url == self.download_url,
            r.binary_path == self.binary_path,
    {
        PluginManifest {
            id: self.id.clone(),
            name: self.name.clone(),
            version: self.version.clone(),
            supported_hosts: clone_strings(&self.supported_hosts),
            entry_point: self.entry_point.clone(),
            plugin_type: self.plugin_type.clone(),
            plugin_function: self.plugin_function.clone(),
            external_binary: self.external_binary,
            language: clone_opt_string(&self.language),
            successful: clone_opt_string(&self.successful),
            install_instruction: clone_opt_string(&self.install_instruction),
            supported_actions: clone_strings(&self.supported_actions),
            category: self.category.clone(),
            download_url: clone_opt_string(&self.download_url),
            binary_path: clone_opt_string(&self.binary_path),
        }
    }
}

} // verus!
