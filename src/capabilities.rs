//! What the capability probe reports about a model.
use vstd::prelude::*;
use vstd::string::*;
use crate::catalog::opt_text;
use crate::text::same_text;

verus! {

/// A value of the probe's `model_info` map, as far as it is read here.
pub enum InfoValue {
    /// A JSON string.
    Text(String),
    /// A JSON number that fits a `u64`.
    Count(u64),
    /// Any other JSON value.
    Other,
}

/// The capability document of a model.
#[derive(Debug)]
pub struct ModelShow {
    /// The names of the model's capabilities (`tools`, `vision`, `thinking`, ...).
    pub capabilities: Vec<String>,
    /// The context window that the model's architecture advertises.
    pub context_length: Option<u64>,
    /// The model's architecture.
    pub architecture: Option<String>,
}

/// Whether `name` is among the capability names.
pub open spec fn has_capability(capabilities: Seq<String>, name: Seq<char>) -> bool {
    exists|i: int| 0 <= i < capabilities.len() && (#[trigger] capabilities[i])@ == name
}

/// The value stored under `key`: that of the first entry with this key.
pub open spec fn info_lookup(entries: Seq<(String, InfoValue)>, key: Seq<char>) -> Option<
    InfoValue,
>
    decreases entries.len(),
{
    if entries.len() == 0 {
        None
    } else if entries[0].0@ == key {
        Some(entries[0].1)
    } else {
        info_lookup(entries.drop_first(), key)
    }
}

/// The string held by a looked-up value, if it is one.
pub open spec fn info_text(v: Option<InfoValue>) -> Option<Seq<char>> {
    match v {
        Some(InfoValue::Text(s)) => Some(s@),
        _ => None,
    }
}

/// The count held by a looked-up value, if it is one.
pub open spec fn info_count(v: Option<InfoValue>) -> Option<u64> {
    match v {
        Some(InfoValue::Count(n)) => Some(n),
        _ => None,
    }
}

/// The architecture named by `model_info`: its `general.architecture` string.
pub open spec fn architecture_of(info: Seq<(String, InfoValue)>) -> Option<Seq<char>> {
    info_text(info_lookup(info, "general.architecture"@))
}

/// The context length named by `model_info`: the count stored under
/// `{architecture}.context_length`.
pub open spec fn context_length_of(info: Seq<(String, InfoValue)>) -> Option<u64> {
    match architecture_of(info) {
        Some(a) => info_count(info_lookup(info, a + ".context_length"@)),
        None => None,
    }
}

/// The first entry of `entries` stored under `key`.
fn find_entry<'a>(entries: &'a Vec<(String, InfoValue)>, key: &str) -> (r: Option<&'a InfoValue>)
    ensures
        match r {
            None => info_lookup(entries@, key@) is None,
            Some(v) => info_lookup(entries@, key@) == Some(*v),
        },
{
    let n = entries.len();
    let mut i: usize = 0;
    assert(entries@.subrange(0, n as int) =~= entries@);
    while i < n
        invariant
            i <= n,
            n == entries@.len(),
            info_lookup(entries@, key@) == info_lookup(entries@.subrange(i as int, n as int), key@),
        decreases n - i,
    {
        let ghost rest = entries@.subrange(i as int, n as int);
        assert(rest[0] == entries@[i as int]);
        assert(rest.drop_first() =~= entries@.subrange(i + 1, n as int));
        if same_text(entries[i].0.as_str(), key) {
            return Some(&entries[i].1);
        }
        i = i + 1;
    }
    None
}

impl ModelShow {
    fn has(&self, name: &str) -> (r: bool)
        ensures
            r == has_capability(self.capabilities@, name@),
    {
        let n = self.capabilities.len();
        let mut i: usize = 0;
        while i < n
            invariant
                i <= n,
                n == self.capabilities@.len(),
                forall|j: int| 0 <= j < i ==> (#[trigger] self.capabilities@[j])@ != name@,
            decreases n - i,
        {
            if same_text(self.capabilities[i].as_str(), name) {
                return true;
            }
            i = i + 1;
        }
        false
    }

    /// Whether the model can call tools.
    pub fn supports_tools(&self) -> (r: bool)
        ensures
            r == has_capability(self.capabilities@, "tools"@),
    {
        self.has("tools")
    }

    /// Whether the model accepts images.
    pub fn supports_vision(&self) -> (r: bool)
        ensures
            r == has_capability(self.capabilities@, "vision"@),
    {
        self.has("vision")
    }

    /// Whether the model can think before answering.
    pub fn supports_thinking(&self) -> (r: bool)
        ensures
            r == has_capability(self.capabilities@, "thinking"@),
    {
        self.has("thinking")
    }

    /// Builds the document from the probe's `capabilities` list and its
    /// `model_info` map (absent where the reply has none, or not as an
    /// object). The architecture is the `general.architecture` string, and
    /// the context length the count under `{architecture}.context_length`.
    pub fn from_document(capabilities: Vec<String>, model_info: Option<Vec<(String, InfoValue)>>) -> (r: Self)
        ensures
            r.capabilities@ == capabilities@,
            opt_text(r.architecture) == match model_info {
                Some(info) => architecture_of(info@),
                None => None,
            },
            r.context_length == match model_info {
                Some(info) => context_length_of(info@),
                None => None,
            },
    {
        let mut architecture: Option<String> = None;
        let mut context_length: Option<u64> = None;
        if let Some(info) = &model_info {
            if let Some(InfoValue::Text(a)) = find_entry(info, "general.architecture") {
                let key = a.clone().concat(".context_length");
                if let Some(InfoValue::Count(n)) = find_entry(info, key.as_str()) {
                    context_length = Some(*n);
                }
                architecture = Some(a.clone());
            }
        }
        ModelShow { capabilities, context_length, architecture }
    }
}

} // verus!
