//! Volume specifications: a `source[:destination[:ro|rw]]` triple with
//! defaulting rules, parsed from a single spec string.

use vstd::prelude::*;
use vstd::string::StrSliceExecFns;
use vstd::string::StringExecFns;

use crate::text::has_char;
use crate::text::lemma_split_fields_clean;
use crate::text::lemma_split_no_sep;
use crate::text::lemma_split_sep;
use crate::text::spec_split;
use crate::text::split_chars;

verus! {

/// The mathematical value of a volume: where it comes from on the host,
/// where it should appear in the target namespace, and the requested
/// access mode.
pub ghost struct VolumeV {
    pub source: Seq<char>,
    pub destination: Seq<char>,
    pub read_only: bool,
}

/// A parsed volume specification.
#[derive(Debug)]
pub struct Volume {
    source: String,
    destination: String,
    read_only: bool,
}

impl Clone for Volume {
    fn clone(&self) -> (r: Self)
        ensures
            r@ == self@,
    {
        Volume {
            source: self.source.clone(),
            destination: self.destination.clone(),
            read_only: self.read_only,
        }
    }
}

impl View for Volume {
    type V = VolumeV;

    closed spec fn view(&self) -> VolumeV {
        VolumeV {
            source: self.source@,
            destination: self.destination@,
            read_only: self.read_only,
        }
    }
}

impl DeepView for Volume {
    type V = VolumeV;

    open spec fn deep_view(&self) -> VolumeV {
        self.view()
    }
}

/// The characters of the literal access mode `ro`.
pub open spec fn ro_chars() -> Seq<char> {
    seq!['r', 'o']
}

/// The characters of the literal access mode `rw`.
pub open spec fn rw_chars() -> Seq<char> {
    seq!['r', 'w']
}

/// What parsing a spec string yields: one field names source and
/// destination alike; two fields name them in order; a third field must be
/// exactly `ro` or `rw`. The empty string and any other shape fail.
pub open spec fn spec_parse_volume(s: Seq<char>) -> Option<VolumeV> {
    if s.len() == 0 {
        None
    } else {
        let f = spec_split(s, ':');
        if f.len() == 1 {
            Some(VolumeV { source: f[0], destination: f[0], read_only: false })
        } else if f.len() == 2 {
            Some(VolumeV { source: f[0], destination: f[1], read_only: false })
        } else if f.len() == 3 && (f[2] == ro_chars() || f[2] == rw_chars()) {
            Some(VolumeV { source: f[0], destination: f[1], read_only: f[2] == ro_chars() })
        } else {
            None
        }
    }
}

/// The spec string of a volume with the defaults made explicit:
/// `source:destination:ro|rw`.
pub open spec fn spec_render_volume(v: VolumeV) -> Seq<char> {
    v.source + seq![':'] + v.destination + seq![':'] + (if v.read_only {
        ro_chars()
    } else {
        rw_chars()
    })
}

/// A failed parse, carrying the offending spec string.
#[derive(Clone, Debug, PartialEq)]
pub struct VolumeParseError {
    value: String,
}

impl View for VolumeParseError {
    type V = Seq<char>;

    closed spec fn view(&self) -> Seq<char> {
        self.value@
    }
}

impl VolumeParseError {
    /// The spec string that failed to parse.
    pub fn value(&self) -> (r: &String)
        ensures
            r@ == self@,
    {
        &self.value
    }

    /// A description of the failure, naming the offending string.
    pub fn message(&self) -> (r: String)
        ensures
            r@ == "invalid volume spec ([src:]dest[:rw|:ro]): "@ + self@,
    {
        let mut r = String::from_str("invalid volume spec ([src:]dest[:rw|:ro]): ");
        r.append(self.value.as_str());
        r
    }
}

/// Does this string hold exactly the two characters `c0` then `c1`?
fn is_two_chars(t: &String, c0: char, c1: char) -> (r: bool)
    ensures
        r == (t@ == seq![c0, c1]),
{
    if t.as_str().unicode_len() == 2 {
        let a = t.as_str().get_char(0);
        let b = t.as_str().get_char(1);
        if a == c0 && b == c1 {
            proof {
                assert(t@ =~= seq![c0, c1]);
            }
            true
        } else {
            false
        }
    } else {
        false
    }
}

impl Volume {
    /// Build a volume from its parts.
    pub fn new(source: String, destination: String, read_only: bool) -> (r: Volume)
        ensures
            r@ == (VolumeV { source: source@, destination: destination@, read_only }),
    {
        Volume { source, destination, read_only }
    }

    /// Parse a `source[:destination[:ro|rw]]` spec string.
    pub fn from_str(s: &str) -> (r: Result<Volume, VolumeParseError>)
        ensures
            match r {
                Ok(v) => spec_parse_volume(s@) == Some(v@),
                Err(e) => spec_parse_volume(s@) is None && e@ == s@,
            },
    {
        if s.unicode_len() == 0 {
            return Err(VolumeParseError { value: String::from_str(s) });
        }
        let fields = split_chars(s, ':');
        proof {
            assert(fields.deep_view().len() == fields@.len());
        }
        if fields.len() == 1 {
            let src = fields[0].clone();
            let dst = fields[0].clone();
            Ok(Volume { source: src, destination: dst, read_only: false })
        } else if fields.len() == 2 {
            let src = fields[0].clone();
            let dst = fields[1].clone();
            Ok(Volume { source: src, destination: dst, read_only: false })
        } else if fields.len() == 3 {
            let ro = is_two_chars(&fields[2], 'r', 'o');
            let rw = is_two_chars(&fields[2], 'r', 'w');
            if ro || rw {
                let src = fields[0].clone();
                let dst = fields[1].clone();
                Ok(Volume { source: src, destination: dst, read_only: ro })
            } else {
                Err(VolumeParseError { value: String::from_str(s) })
            }
        } else {
            Err(VolumeParseError { value: String::from_str(s) })
        }
    }

    /// The host path to expose.
    pub fn source(&self) -> (r: &String)
        ensures
            r@ == self@.source,
    {
        &self.source
    }

    /// The path inside the target namespace where the source should appear.
    pub fn destination(&self) -> (r: &String)
        ensures
            r@ == self@.destination,
    {
        &self.destination
    }

    /// The requested access mode.
    pub fn read_only(&self) -> (r: bool)
        ensures
            r == self@.read_only,
    {
        self.read_only
    }

    /// The spec string of this volume with the defaults made explicit.
    pub fn render(&self) -> (r: String)
        ensures
            r@ == spec_render_volume(self@),
    {
        let mut r = self.source.clone();
        r.append(":");
        r.append(self.destination.as_str());
        r.append(":");
        if self.read_only {
            r.append("ro");
        } else {
            r.append("rw");
        }
        proof {
            reveal_strlit(":");
            reveal_strlit("ro");
            reveal_strlit("rw");
            assert(":"@ =~= seq![':']);
            assert("ro"@ =~= ro_chars());
            assert("rw"@ =~= rw_chars());
        }
        r
    }
}

/// Parsing round-trip: any volume obtained by a successful parse is parsed
/// back unchanged from its own rendered spec string.
pub proof fn lemma_parse_render_roundtrip(s: Seq<char>, v: VolumeV)
    requires
        spec_parse_volume(s) == Some(v),
    ensures
        spec_parse_volume(spec_render_volume(v)) == Some(v),
{
    let f = spec_split(s, ':');
    lemma_split_fields_clean(s, ':', Seq::empty());
    assert(!has_char(v.source, ':'));
    assert(!has_char(v.destination, ':'));
    let tail = if v.read_only { ro_chars() } else { rw_chars() };
    assert(!has_char(tail, ':')) by {
        assert(forall|i: int| 0 <= i < tail.len() ==> tail[i] != ':') by {
            assert(tail[0] != ':');
            assert(tail[1] != ':');
        }
    }
    let r = spec_render_volume(v);
    assert(r =~= v.source + seq![':'] + (v.destination + seq![':'] + tail));
    lemma_split_sep(v.source, ':', v.destination + seq![':'] + tail, Seq::empty());
    lemma_split_sep(v.destination, ':', tail, Seq::empty());
    lemma_split_no_sep(tail, ':', Seq::empty());
    assert(Seq::<char>::empty() + v.source =~= v.source);
    assert(Seq::<char>::empty() + v.destination =~= v.destination);
    assert(Seq::<char>::empty() + tail =~= tail);
    let g = spec_split(r, ':');
    assert(g =~= seq![v.source, v.destination, tail]);
    assert(g.len() == 3);
    assert(g[0] == v.source);
    assert(g[1] == v.destination);
    assert(g[2] == tail);
    assert(ro_chars() != rw_chars()) by {
        assert(ro_chars()[1] == 'o');
        assert(rw_chars()[1] == 'w');
    }
    assert(r.len() > 0);
}

} // verus!
