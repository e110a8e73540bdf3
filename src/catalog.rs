//! The model catalog: context windows by model family, display names and the
//! keep-alive policy of a model.
use vstd::prelude::*;
use vstd::string::*;
use crate::text::same_text;

verus! {

/// Context window given to a model whose family is not in the table.
pub const DEFAULT_TOKENS: u64 = 4096;

/// Upper bound on every context window this crate hands out, whatever the
/// table or the server says: it keeps most models usable on ~16 GB of memory.
pub const MAXIMUM_TOKENS: u64 = 16384;

/// The family of a model name: the characters before the first `:`.
pub open spec fn family_of(name: Seq<char>) -> Seq<char>
    decreases name.len(),
{
    if name.len() == 0 || name[0] == ':' {
        Seq::empty()
    } else {
        seq![name[0]] + family_of(name.drop_first())
    }
}

/// The context window that the family table gives, if the family is listed.
pub open spec fn table_window(family: Seq<char>) -> Option<u64> {
    if family == "granite-code"@ || family == "phi"@ || family == "tinyllama"@ {
        Some(2048)
    } else if family == "llama2"@ || family == "stablelm2"@ || family == "vicuna"@
        || family == "yi"@ {
        Some(4096)
    } else if family == "aya"@ || family == "codegemma"@ || family == "gemma"@
        || family == "gemma2"@ || family == "llama3"@ || family == "starcoder"@ {
        Some(8192)
    } else if family == "codellama"@ || family == "starcoder2"@ {
        Some(16384)
    } else if family == "codestral"@ || family == "dolphin-mixtral"@ || family == "llava"@
        || family == "magistral"@ || family == "mistral"@ || family == "mixstral"@
        || family == "qwen2"@ || family == "qwen2.5-coder"@ {
        Some(32768)
    } else if family == "cogito"@ || family == "command-r"@ || family == "deepseek-coder-v2"@
        || family == "deepseek-r1"@ || family == "deepseek-v3"@ || family == "devstral"@
        || family == "gemma3"@ || family == "gpt-oss"@ || family == "granite3.3"@
        || family == "llama3.1"@ || family == "llama3.2"@ || family == "llama3.3"@
        || family == "mistral-nemo"@ || family == "phi3"@ || family == "phi3.5"@
        || family == "phi4"@ || family == "qwen3"@ || family == "yi-coder"@ {
        Some(128000)
    } else if family == "qwen3-coder"@ {
        Some(256000)
    } else {
        None
    }
}

/// `n` clamped to `[1, MAXIMUM_TOKENS]`.
pub open spec fn clamp_window(n: u64) -> u64 {
    if n < 1 {
        1
    } else if n > MAXIMUM_TOKENS {
        MAXIMUM_TOKENS
    } else {
        n
    }
}

/// The context window of a model name with no explicit count: the table's
/// value for its family, or the default, clamped to `[1, MAXIMUM_TOKENS]`.
pub open spec fn window_for(name: Seq<char>) -> u64 {
    clamp_window(
        match table_window(family_of(name)) {
            Some(w) => w,
            None => DEFAULT_TOKENS,
        },
    )
}

/// A name whose family is not in the table gets the default window.
pub proof fn lemma_unknown_family_gets_default(name: Seq<char>)
    requires
        table_window(family_of(name)) is None,
    ensures
        window_for(name) == DEFAULT_TOKENS,
{
}

/// A family whose table window exceeds the ceiling gets exactly the ceiling.
pub proof fn lemma_large_window_is_clamped(name: Seq<char>)
    requires
        table_window(family_of(name)) matches Some(w) && w > MAXIMUM_TOKENS,
    ensures
        window_for(name) == MAXIMUM_TOKENS,
{
}

/// The name without a trailing `:latest`, where it has one.
pub open spec fn without_latest(name: Seq<char>) -> Option<Seq<char>> {
    let k = ":latest"@.len();
    if name.len() >= k && name.subrange(name.len() - k, name.len() as int) == ":latest"@ {
        Some(name.subrange(0, name.len() - k))
    } else {
        None
    }
}

/// The characters of an optional string.
pub open spec fn opt_text(o: Option<String>) -> Option<Seq<char>> {
    match o {
        Some(s) => Some(s@),
        None => None,
    }
}

proof fn lemma_family_is_prefix(name: Seq<char>, i: int)
    requires
        0 <= i <= name.len(),
        forall|j: int| 0 <= j < i ==> name[j] != ':',
        i == name.len() || name[i] == ':',
    ensures
        family_of(name) == name.subrange(0, i),
    decreases i,
{
    if i == 0 {
        assert(name.subrange(0, 0) =~= Seq::<char>::empty());
    } else {
        let rest = name.drop_first();
        assert forall|j: int| 0 <= j < i - 1 implies rest[j] != ':' by {
            assert(rest[j] == name[j + 1]);
        }
        lemma_family_is_prefix(rest, i - 1);
        assert(seq![name[0]] + rest.subrange(0, i - 1) =~= name.subrange(0, i));
    }
}

/// The family part of a model name.
fn family_prefix(name: &str) -> (r: &str)
    ensures
        r@ == family_of(name@),
{
    let n = name.unicode_len();
    let mut i: usize = 0;
    while i < n
        invariant
            i <= n,
            n == name@.len(),
            forall|j: int| 0 <= j < i ==> name@[j] != ':',
        ensures
            i <= n,
            i == n || name@[i as int] == ':',
            forall|j: int| 0 <= j < i ==> name@[j] != ':',
        decreases n - i,
    {
        if name.get_char(i) == ':' {
            break;
        }
        i = i + 1;
    }
    proof {
        lemma_family_is_prefix(name@, i as int);
    }
    name.substring_char(0, i)
}

/// The family table, in executable form.
fn lookup_family(f: &str) -> (r: Option<u64>)
    ensures
        r == table_window(f@),
{
    if same_text(f, "granite-code") || same_text(f, "phi") || same_text(f, "tinyllama") {
        Some(2048)
    } else if same_text(f, "llama2") || same_text(f, "stablelm2") || same_text(f, "vicuna")
        || same_text(f, "yi") {
        Some(4096)
    } else if same_text(f, "aya") || same_text(f, "codegemma") || same_text(f, "gemma")
        || same_text(f, "gemma2") || same_text(f, "llama3") || same_text(f, "starcoder") {
        Some(8192)
    } else if same_text(f, "codellama") || same_text(f, "starcoder2") {
        Some(16384)
    } else if same_text(f, "codestral") || same_text(f, "dolphin-mixtral") || same_text(
        f,
        "llava",
    ) || same_text(f, "magistral") || same_text(f, "mistral") || same_text(f, "mixstral")
        || same_text(f, "qwen2") || same_text(f, "qwen2.5-coder") {
        Some(32768)
    } else if same_text(f, "cogito") || same_text(f, "command-r") || same_text(
        f,
        "deepseek-coder-v2",
    ) || same_text(f, "deepseek-r1") || same_text(f, "deepseek-v3") || same_text(f, "devstral")
        || same_text(f, "gemma3") || same_text(f, "gpt-oss") || same_text(f, "granite3.3")
        || same_text(f, "llama3.1") || same_text(f, "llama3.2") || same_text(f, "llama3.3")
        || same_text(f, "mistral-nemo") || same_text(f, "phi3") || same_text(f, "phi3.5")
        || same_text(f, "phi4") || same_text(f, "qwen3") || same_text(f, "yi-coder") {
        Some(128000)
    } else if same_text(f, "qwen3-coder") {
        Some(256000)
    } else {
        None
    }
}

/// `n` clamped to `[1, MAXIMUM_TOKENS]`.
fn clamp_to_ceiling(n: u64) -> (r: u64)
    ensures
        r == clamp_window(n),
{
    if n < 1 {
        1
    } else if n > MAXIMUM_TOKENS {
        MAXIMUM_TOKENS
    } else {
        n
    }
}

/// The context window of a model name: the family table's value, or
/// `DEFAULT_TOKENS` for a family not in it, clamped to `[1, MAXIMUM_TOKENS]`.
pub fn get_max_tokens(name: &str) -> (r: u64)
    ensures
        r == window_for(name@),
        1 <= r <= MAXIMUM_TOKENS,
{
    let family = family_prefix(name);
    let w = match lookup_family(family) {
        Some(w) => w,
        None => DEFAULT_TOKENS,
    };
    clamp_to_ceiling(w)
}

/// How long the server keeps a model loaded after a request: a number of
/// seconds (negative: for ever) or a duration such as `"5m"`.
#[derive(Clone, Debug)]
pub enum KeepAlive {
    Seconds(isize),
    Duration(String),
}

impl KeepAlive {
    /// Keep the model loaded for ever.
    pub fn indefinite() -> (r: Self)
        ensures
            r == KeepAlive::Seconds(-1isize),
    {
        KeepAlive::Seconds(-1)
    }
}

impl Default for KeepAlive {
    fn default() -> (r: Self)
        ensures
            r == KeepAlive::Seconds(-1isize),
    {
        KeepAlive::indefinite()
    }
}

impl PartialEq for KeepAlive {
    fn eq(&self, other: &KeepAlive) -> (r: bool) {
        match (self, other) {
            (KeepAlive::Seconds(a), KeepAlive::Seconds(b)) => *a == *b,
            (KeepAlive::Duration(a), KeepAlive::Duration(b)) => same_text(a.as_str(), b.as_str()),
            _ => false,
        }
    }
}

impl vstd::std_specs::cmp::PartialEqSpecImpl for KeepAlive {
    open spec fn obeys_eq_spec() -> bool {
        true
    }

    open spec fn eq_spec(&self, other: &KeepAlive) -> bool {
        match (self, other) {
            (KeepAlive::Seconds(a), KeepAlive::Seconds(b)) => a == b,
            (KeepAlive::Duration(a), KeepAlive::Duration(b)) => a@ == b@,
            _ => false,
        }
    }
}

/// A model the client can talk to.
#[derive(Clone, Debug)]
pub struct Model {
    pub name: String,
    pub display_name: Option<String>,
    pub max_tokens: u64,
    pub keep_alive: Option<KeepAlive>,
    pub supports_tools: Option<bool>,
    pub supports_vision: Option<bool>,
    pub supports_thinking: Option<bool>,
}

/// `name` without a trailing `:latest`, where it has one.
fn strip_latest(name: &str) -> (r: Option<String>)
    ensures
        opt_text(r) == without_latest(name@),
{
    let n = name.unicode_len();
    let k = ":latest".unicode_len();
    if n >= k {
        let tail = name.substring_char(n - k, n);
        if same_text(tail, ":latest") {
            return Some(String::from_str(name.substring_char(0, n - k)));
        }
    }
    None
}

impl Model {
    /// A model with the given name and capabilities. The display name is the
    /// one given, else the name without a trailing `:latest` (none if it has
    /// no such suffix). The context window is the one given, else the family
    /// table's, and in both cases clamped to `[1, MAXIMUM_TOKENS]`. The model
    /// is kept loaded for ever.
    pub fn new(
        name: &str,
        display_name: Option<&str>,
        max_tokens: Option<u64>,
        supports_tools: Option<bool>,
        supports_vision: Option<bool>,
        supports_thinking: Option<bool>,
    ) -> (r: Self)
        ensures
            r.name@ == name@,
            opt_text(r.display_name) == match display_name {
                Some(d) => Some(d@),
                None => without_latest(name@),
            },
            r.max_tokens == match max_tokens {
                Some(m) => clamp_window(m),
                None => window_for(name@),
            },
            r.keep_alive == Some(KeepAlive::Seconds(-1isize)),
            r.supports_tools == supports_tools,
            r.supports_vision == supports_vision,
            r.supports_thinking == supports_thinking,
    {
        let display_name = match display_name {
            Some(d) => Some(String::from_str(d)),
            None => strip_latest(name),
        };
        let max_tokens = match max_tokens {
            Some(m) => clamp_to_ceiling(m),
            None => get_max_tokens(name),
        };
        Model {
            name: String::from_str(name),
            display_name,
            max_tokens,
            keep_alive: Some(KeepAlive::indefinite()),
            supports_tools,
            supports_vision,
            supports_thinking,
        }
    }

    /// The model's name, which identifies it to the server.
    pub fn id(&self) -> (r: &str)
        ensures
            r@ == self.name@,
    {
        self.name.as_str()
    }

    /// The name to show: the display name if there is one, else the name.
    pub fn display_name(&self) -> (r: &str)
        ensures
            r@ == match self.display_name {
                Some(d) => d@,
                None => self.name@,
            },
    {
        match &self.display_name {
            Some(d) => d.as_str(),
            None => self.name.as_str(),
        }
    }

    /// The model's context window.
    pub fn max_token_count(&self) -> (r: u64)
        ensures
            r == self.max_tokens,
    {
        self.max_tokens
    }
}

} // verus!
