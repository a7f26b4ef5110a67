//! Security policy and threat-model enforcement.
//!
//! The defaults are deny-by-default: remote images are never referenced,
//! absolute paths and paths that leave the document root are denied, and
//! oversized images and inputs are rejected. The decision for an image is a
//! function of its reference, the policy and the file-system facts about it
//! ([`AssetProbe`]), which the caller gathers.

use vstd::prelude::*;
use crate::text::{ends_with, str_ends_with, str_starts_with, ascii_lower_seq, chars_of, decimal, decimal_string, has_at, owned, same, starts_with, string_of_range, to_ascii_lower, trim_start, trim_start_at};

verus! {

pub const DEFAULT_MAX_IMAGE_BYTES: u64 = 33554432;

pub const DEFAULT_MAX_INPUT_BYTES: u64 = 16777216;

/// The active security policy for a render.
#[derive(Debug)]
pub struct SecurityPolicy {
    /// Directory that local assets must resolve within.
    pub root: String,
    /// Whether `http(s)` resources may be referenced (reserved; never consulted
    /// by the image decision).
    pub allow_remote: bool,
    /// Maximum size of an embeddable image, in bytes.
    pub max_image_bytes: u64,
    /// Maximum size of the input Markdown, in bytes.
    pub max_input_bytes: u64,
}

/// What to do with a referenced image.
#[derive(Debug)]
pub enum AssetDecision {
    /// Safe to embed; carries the path to hand to the back-end.
    Allow(String),
    /// Rejected; carries a human-readable reason for diagnostics.
    Deny(String),
}

pub enum DecisionV {
    Allow(Seq<char>),
    Deny(Seq<char>),
}

impl View for AssetDecision {
    type V = DecisionV;

    open spec fn view(&self) -> DecisionV {
        match self {
            AssetDecision::Allow(p) => DecisionV::Allow(p@),
            AssetDecision::Deny(r) => DecisionV::Deny(r@),
        }
    }
}

/// File-system facts about one image reference, relative to the policy root.
#[derive(Debug)]
pub struct AssetProbe {
    /// The reference is an absolute path.
    pub absolute: bool,
    /// `root/src` canonicalizes, i.e. the file exists.
    pub found: bool,
    /// The canonical path of `root/src` (empty when not found).
    pub canonical: String,
    /// The canonical path of the policy root, or `None` when the root cannot
    /// be canonicalized.
    pub canonical_root: Option<String>,
    /// The file's size, or the reason it could not be read.
    pub size: Result<u64, String>,
}

pub struct ProbeV {
    pub absolute: bool,
    pub found: bool,
    pub canonical: Seq<char>,
    pub canonical_root: Option<Seq<char>>,
    pub size: Result<u64, Seq<char>>,
}

impl View for AssetProbe {
    type V = ProbeV;

    open spec fn view(&self) -> ProbeV {
        ProbeV {
            absolute: self.absolute,
            found: self.found,
            canonical: self.canonical@,
            canonical_root: match self.canonical_root {
                Some(r) => Some(r@),
                None => None,
            },
            size: match self.size {
                Ok(n) => Ok(n),
                Err(e) => Err(e@),
            },
        }
    }
}

/// The facts gathered for each image reference of a document.
#[derive(Debug)]
pub struct AssetProbes {
    pub entries: Vec<(String, AssetProbe)>,
}

/// Facts for a reference nobody probed: it is treated as a missing file.
pub open spec fn unprobed() -> ProbeV {
    ProbeV { absolute: false, found: false, canonical: seq![], canonical_root: None, size: Err(seq![]) }
}

/// The facts recorded for `src` (the last entry for it), or [`unprobed`].
pub open spec fn probe_for(entries: Seq<(String, AssetProbe)>, src: Seq<char>) -> ProbeV
    decreases entries.len(),
{
    if entries.len() == 0 {
        unprobed()
    } else if entries.last().0@ == src {
        entries.last().1@
    } else {
        probe_for(entries.drop_last(), src)
    }
}

pub struct PolicyV {
    pub root: Seq<char>,
    pub allow_remote: bool,
    pub max_image_bytes: u64,
    pub max_input_bytes: u64,
}

impl View for SecurityPolicy {
    type V = PolicyV;

    open spec fn view(&self) -> PolicyV {
        PolicyV {
            root: self.root@,
            allow_remote: self.allow_remote,
            max_image_bytes: self.max_image_bytes,
            max_input_bytes: self.max_input_bytes,
        }
    }
}

/// A reference is remote when, after leading whitespace and ignoring ASCII
/// case, it starts with `http://`, `https://`, `//`, `ftp://` or `data:`.
pub open spec fn is_remote_ref(src: Seq<char>) -> bool {
    let lower = ascii_lower_seq(trim_start(src));
    ||| starts_with(lower, "http://"@)
    ||| starts_with(lower, "https://"@)
    ||| starts_with(lower, "//"@)
    ||| starts_with(lower, "ftp://"@)
    ||| starts_with(lower, "data:"@)
}

/// A canonical path lies within a canonical directory when it is the
/// directory itself or continues it after a `/`.
pub open spec fn path_within(path: Seq<char>, root: Seq<char>) -> bool {
    path == root || starts_with(path, if ends_with(root, "/"@) { root } else { root + "/"@ })
}

/// The decision for image reference `src` under `policy`, given the facts `p`.
pub open spec fn decide(policy: PolicyV, src: Seq<char>, p: ProbeV) -> DecisionV {
    if is_remote_ref(src) {
        DecisionV::Deny("remote image not loaded (remote resources are disabled): "@ + src)
    } else if p.absolute {
        DecisionV::Deny("absolute image path denied: "@ + src)
    } else if !p.found {
        DecisionV::Deny("image not found: "@ + src)
    } else if p.canonical_root is None {
        DecisionV::Deny("document root cannot be resolved, image denied: "@ + src)
    } else if !path_within(p.canonical, p.canonical_root->Some_0) {
        DecisionV::Deny("path traversal outside document root denied: "@ + src)
    } else {
        match p.size {
            Ok(n) => if n > policy.max_image_bytes {
                DecisionV::Deny("image exceeds "@ + decimal(policy.max_image_bytes as nat) + " byte limit: "@ + src)
            } else {
                DecisionV::Allow(src)
            },
            Err(e) => DecisionV::Deny("cannot stat image "@ + src + ": "@ + e),
        }
    }
}

/// Whether `src` refers to a remote resource.
pub fn is_remote(src: &str) -> (b: bool)
    ensures
        b == is_remote_ref(src@),
{
    let v = chars_of(src);
    let b = trim_start_at(&v, 0, v.len());
    let rest = string_of_range(&v, b, v.len());
    assert(v@.subrange(0, v@.len() as int) =~= v@);
    let lower = to_ascii_lower(rest.as_str());
    let lv = chars_of(lower.as_str());
    assert(lv@.skip(0) =~= lv@);
    has_at(&lv, 0, "http://") || has_at(&lv, 0, "https://") || has_at(&lv, 0, "//")
        || has_at(&lv, 0, "ftp://") || has_at(&lv, 0, "data:")
}

impl AssetProbe {
    pub fn duplicate(&self) -> (p: AssetProbe)
        ensures
            p@ == self@,
    {
        AssetProbe {
            absolute: self.absolute,
            found: self.found,
            canonical: self.canonical.clone(),
            canonical_root: match &self.canonical_root {
                Some(r) => Some(r.clone()),
                None => None,
            },
            size: match &self.size {
                Ok(n) => Ok(*n),
                Err(e) => Err(e.clone()),
            },
        }
    }
}

impl AssetProbes {
    /// No facts at all: every local image counts as missing.
    pub fn new() -> (t: AssetProbes)
        ensures
            t.entries@.len() == 0,
    {
        AssetProbes { entries: Vec::new() }
    }

    /// Record the facts for `src`.
    pub fn record(&mut self, src: String, probe: AssetProbe)
        ensures
            final(self).entries@ == old(self).entries@.push((src, probe)),
    {
        self.entries.push((src, probe));
    }

    /// The facts recorded for `src`.
    pub fn lookup(&self, src: &str) -> (p: AssetProbe)
        ensures
            p@ == probe_for(self.entries@, src@),
    {
        let mut i = self.entries.len();
        assert(self.entries@.take(i as int) =~= self.entries@);
        while i > 0
            invariant
                i <= self.entries@.len(),
                probe_for(self.entries@, src@) == probe_for(self.entries@.take(i as int), src@),
            decreases i,
        {
            let ghost pre = self.entries@.take(i as int);
            assert(pre.drop_last() =~= self.entries@.take(i - 1));
            if same(self.entries[i - 1].0.as_str(), src) {
                return self.entries[i - 1].1.duplicate();
            }
            i = i - 1;
        }
        assert(self.entries@.take(0) =~= Seq::<(String, AssetProbe)>::empty());
        AssetProbe { absolute: false, found: false, canonical: String::new(), canonical_root: None, size: Err(String::new()) }
    }
}

impl SecurityPolicy {
    /// The strict, recommended default policy rooted at `root`.
    pub fn strict(root: &str) -> (p: SecurityPolicy)
        ensures
            p@ == (PolicyV {
                root: root@,
                allow_remote: false,
                max_image_bytes: DEFAULT_MAX_IMAGE_BYTES,
                max_input_bytes: DEFAULT_MAX_INPUT_BYTES,
            }),
    {
        SecurityPolicy {
            root: String::from_str(root),
            allow_remote: false,
            max_image_bytes: DEFAULT_MAX_IMAGE_BYTES,
            max_input_bytes: DEFAULT_MAX_INPUT_BYTES,
        }
    }

    pub fn duplicate(&self) -> (p: SecurityPolicy)
        ensures
            p@ == self@,
    {
        SecurityPolicy {
            root: self.root.clone(),
            allow_remote: self.allow_remote,
            max_image_bytes: self.max_image_bytes,
            max_input_bytes: self.max_input_bytes,
        }
    }

    /// Decide whether the image reference `src` may be embedded, given the
    /// file-system facts `probe` about it.
    pub fn resolve_image(&self, src: &str, probe: &AssetProbe) -> (d: AssetDecision)
        ensures
            d@ == decide(self@, src@, probe@),
    {
        if is_remote(src) {
            let mut m = owned("remote image not loaded (remote resources are disabled): ");
            m.append(src);
            return AssetDecision::Deny(m);
        }
        if probe.absolute {
            let mut m = owned("absolute image path denied: ");
            m.append(src);
            return AssetDecision::Deny(m);
        }
        if !probe.found {
            let mut m = owned("image not found: ");
            m.append(src);
            return AssetDecision::Deny(m);
        }
        if probe.canonical_root.is_none() {
            let mut m = owned("document root cannot be resolved, image denied: ");
            m.append(src);
            return AssetDecision::Deny(m);
        }
        let within = match &probe.canonical_root {
            Some(r) => inside_root(probe.canonical.as_str(), Some(r.as_str())),
            None => false,
        };
        if !within {
            let mut m = owned("path traversal outside document root denied: ");
            m.append(src);
            return AssetDecision::Deny(m);
        }
        match &probe.size {
            Ok(n) => {
                if *n > self.max_image_bytes {
                    let mut m = owned("image exceeds ");
                    let d = decimal_string(self.max_image_bytes);
                    m.append(d.as_str());
                    m.append(" byte limit: ");
                    m.append(src);
                    AssetDecision::Deny(m)
                } else {
                    AssetDecision::Allow(String::from_str(src))
                }
            },
            Err(e) => {
                let mut m = owned("cannot stat image ");
                m.append(src);
                m.append(": ");
                m.append(e.as_str());
                AssetDecision::Deny(m)
            },
        }
    }

    /// Decide about `src` using the facts recorded in `probes`.
    pub fn resolve_with(&self, src: &str, probes: &AssetProbes) -> (d: AssetDecision)
        ensures
            d@ == decide(self@, src@, probe_for(probes.entries@, src@)),
    {
        let p = probes.lookup(src);
        self.resolve_image(src, &p)
    }

    /// Whether an input of `len` bytes is within the input-size cap.
    pub fn input_allowed(&self, len: u64) -> (b: bool)
        ensures
            b == (len <= self.max_input_bytes),
    {
        len <= self.max_input_bytes
    }
}

/// A remote reference (`http(s)://`, `//`, `ftp://`, `data:`) is never
/// loaded: whatever the policy and the file-system facts, it is denied.
pub proof fn law_remote_denied(policy: PolicyV, src: Seq<char>, p: ProbeV)
    requires
        is_remote_ref(src),
    ensures
        decide(policy, src, p) is Deny,
{
}

/// An image is allowed only when it is a local, relative reference to an
/// existing file inside the document root and within the size cap; what is
/// handed on is then the reference itself.
pub proof fn law_allow_only_safe(policy: PolicyV, src: Seq<char>, p: ProbeV)
    ensures
        decide(policy, src, p) matches DecisionV::Allow(path) ==> {
            &&& path == src
            &&& !is_remote_ref(src)
            &&& !p.absolute
            &&& p.found
            &&& p.canonical_root matches Some(r) && path_within(p.canonical, r)
            &&& p.size matches Ok(n) && n <= policy.max_image_bytes
        },
{
}

/// Allowing remote resources changes no decision: the image decision never
/// consults the flag, so remote references stay denied.
pub proof fn law_remote_flag_inert(policy: PolicyV, src: Seq<char>, p: ProbeV, allow: bool)
    ensures
        decide(PolicyV { allow_remote: allow, ..policy }, src, p) == decide(policy, src, p),
{
}

/// Where the document root cannot be resolved, every image is denied: access
/// fails closed rather than comparing against an unresolved path.
pub proof fn law_unresolved_root_denied(policy: PolicyV, src: Seq<char>, p: ProbeV)
    requires
        p.canonical_root is None,
    ensures
        decide(policy, src, p) is Deny,
{
}

/// Whether the canonical path `canonical` lies within the canonical root;
/// never where the root could not be resolved.
pub fn inside_root(canonical: &str, canonical_root: Option<&str>) -> (b: bool)
    ensures
        b == (canonical_root matches Some(r) && path_within(canonical@, r@)),
{
    proof { reveal_strlit("/"); }
    match canonical_root {
        None => false,
        Some(r) => {
            if same(canonical, r) {
                return true;
            }
            if str_ends_with(r, "/") {
                str_starts_with(canonical, r)
            } else {
                let mut d = String::from_str(r);
                d.append("/");
                str_starts_with(canonical, d.as_str())
            }
        },
    }
}

} // verus!
