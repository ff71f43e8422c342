use vstd::prelude::*;

verus! {

/// Which network the client talks to.
#[derive(Clone, Copy, Debug, PartialEq, Eq, Structural)]
pub enum ChainType {
    Real,
    Simulator,
}

/// Where the wallet's private key comes from (the key itself is never stored).
#[derive(Clone, Debug)]
pub enum KeySource {
    /// An environment variable holding either the PEM content or a path to a PEM file.
    Env { env_var: String },
    /// A PEM file on disk (development only).
    File { file_path: String },
    /// A HashiCorp Vault secret (not available yet).
    Vault { vault_addr: String, vault_path: String },
}

/// Client configuration: gateway, network kind and key source.
#[derive(Clone, Debug)]
pub struct Config {
    pub gateway_uri: String,
    pub chain_type: ChainType,
    pub key: KeySource,
}

impl Config {
    /// The configuration for a local chain simulator.
    pub fn chain_simulator_config() -> (r: Self)
        ensures
            r.gateway_uri@ == "http://localhost:8085"@,
            r.chain_type == ChainType::Simulator,
            r.key matches KeySource::File { file_path } && file_path@ == "../eduChain.pem"@,
    {
        Config {
            gateway_uri: "http://localhost:8085".to_owned(),
            chain_type: ChainType::Simulator,
            key: KeySource::File { file_path: "../eduChain.pem".to_owned() },
        }
    }

    /// The gateway the client talks to.
    pub fn gateway_uri(&self) -> (r: &str)
        ensures
            r@ == self.gateway_uri@,
    {
        self.gateway_uri.as_str()
    }

    /// Whether the configuration targets a chain simulator.
    pub fn use_chain_simulator(&self) -> (r: bool)
        ensures
            r == (self.chain_type == ChainType::Simulator),
    {
        match self.chain_type {
            ChainType::Simulator => true,
            ChainType::Real => false,
        }
    }
}

/// `c` has the Unicode `White_Space` property.
pub open spec fn is_unicode_whitespace(c: char) -> bool {
    let n = c as u32;
    ||| 0x09 <= n <= 0x0d
    ||| n == 0x20
    ||| n == 0x85
    ||| n == 0xa0
    ||| n == 0x1680
    ||| 0x2000 <= n <= 0x200a
    ||| n == 0x2028
    ||| n == 0x2029
    ||| n == 0x202f
    ||| n == 0x205f
    ||| n == 0x3000
}

/// `s` without its leading whitespace.
pub open spec fn trim_start_chars(s: Seq<char>) -> Seq<char>
    decreases s.len(),
{
    if s.len() > 0 && is_unicode_whitespace(s[0]) {
        trim_start_chars(s.drop_first())
    } else {
        s
    }
}

/// `s` without its trailing whitespace.
pub open spec fn trim_end_chars(s: Seq<char>) -> Seq<char>
    decreases s.len(),
{
    if s.len() > 0 && is_unicode_whitespace(s.last()) {
        trim_end_chars(s.drop_last())
    } else {
        s
    }
}

/// `s` without its leading and trailing whitespace.
pub open spec fn trim_chars(s: Seq<char>) -> Seq<char> {
    trim_end_chars(trim_start_chars(s))
}

/// Calls `str::trim_start`. Trusted: by its documentation the result is `s` without
/// its leading whitespace, whitespace being the characters with the Unicode
/// `White_Space` property.
#[verifier::external_body]
fn trim_start(s: &str) -> (r: &str)
    ensures
        r@ == trim_start_chars(s@),
{
    s.trim_start()
}

/// Calls `str::trim`. Trusted: by its documentation the result is `s` without its
/// leading and trailing whitespace, whitespace being the characters with the Unicode
/// `White_Space` property.
#[verifier::external_body]
fn trim(s: &str) -> (r: &str)
    ensures
        r@ == trim_chars(s@),
{
    s.trim()
}

/// `s` begins with `prefix`.
pub open spec fn has_prefix(s: Seq<char>, prefix: Seq<char>) -> bool {
    prefix.len() <= s.len() && s.subrange(0, prefix.len() as int) == prefix
}

fn starts_with(s: &str, prefix: &str) -> (r: bool)
    ensures
        r == has_prefix(s@, prefix@),
{
    let n = prefix.unicode_len();
    if n > s.unicode_len() {
        return false;
    }
    let mut i: usize = 0;
    while i < n
        invariant
            n == prefix@.len(),
            n <= s@.len(),
            i <= n,
            forall|j: int| 0 <= j < i ==> s@[j] == prefix@[j],
        decreases n - i,
    {
        if s.get_char(i) != prefix.get_char(i) {
            return false;
        }
        i = i + 1;
    }
    assert(s@.subrange(0, n as int) =~= prefix@);
    true
}

/// What the key environment variable holds.
#[derive(Clone, Debug)]
pub enum PemValue {
    /// The PEM content itself.
    Inline,
    /// The path of a PEM file.
    Path(String),
}

/// Reads the value of the key environment variable: PEM content when, past leading
/// whitespace, it starts with `-----`; otherwise the path of a PEM file, trimmed.
pub fn pem_env_value(val: &str) -> (r: PemValue)
    ensures
        has_prefix(trim_start_chars(val@), "-----"@) ==> r is Inline,
        !has_prefix(trim_start_chars(val@), "-----"@) ==> (r matches PemValue::Path(p) && p@
            == trim_chars(val@)),
{
    if starts_with(trim_start(val), "-----") {
        PemValue::Inline
    } else {
        PemValue::Path(trim(val).to_owned())
    }
}

} // verus!
