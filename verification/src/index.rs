//! The index metadata and link entries: what an index record stores.
//!
//! Metadata binds a document's owner shard and name to optional traces of
//! its fragment and its links record.  A link entry names one reference
//! to another index.  Optional traces frame as one tag byte — `0xff` for
//! present followed by the trace, `0x00` for absent — so the layout is
//! deterministic either way.

use vstd::prelude::*;

use crate::codec::lemma_concat_prefix_subrange;
use crate::codec::lemma_concat_split;
use crate::codec::lemma_subrange_shift;
use crate::codec::read_exact;
use crate::codec::read_u8;
use crate::codec::write_bytes;
use crate::codec::write_u8;
use crate::domains::RecordType;
use crate::fragment_record::FragmentRecord;
use crate::index_record::IndexRecord;
use crate::keys::Shard;
use crate::links_record::LinksRecord;
use crate::path::spec_parse_segment;
use crate::path::spec_segment_bytes;
use crate::path::spec_segment_valid;
use crate::path::Segment;
use crate::trace::spec_parse_trace;
use crate::trace::spec_trace_bytes;
use crate::trace::Trace;
use crate::trace::TraceView;

verus! {

/// The view of an optional trace value.
pub open spec fn spec_opt_trace_view<T: RecordType>(o: Option<Trace<T>>) -> Option<TraceView> {
    match o {
        Some(t) => Some(t@),
        None => None,
    }
}

/// The byte layout of an optional trace: `0xff` and the trace when
/// present, `0x00` alone when absent.
pub open spec fn spec_opt_trace_bytes<T: RecordType>(o: Option<TraceView>) -> Seq<u8> {
    match o {
        Some(v) => seq![255u8] + spec_trace_bytes::<T>(v),
        None => seq![0u8],
    }
}

/// Parses an optional trace at position `i`.
pub open spec fn spec_parse_opt_trace<T: RecordType>(s: Seq<u8>, i: int) -> Option<
    (Option<TraceView>, int),
> {
    if 0 <= i && i < s.len() {
        if s[i] == 255 {
            match spec_parse_trace::<T>(s, i + 1) {
                Some(p) => Some((Some(p.0), p.1)),
                None => None,
            }
        } else if s[i] == 0 {
            Some((None, i + 1))
        } else {
            None
        }
    } else {
        None
    }
}

/// Parsing reads back exactly what encoding wrote, wherever the encoding
/// stands in a longer byte string.
pub proof fn lemma_parse_opt_trace_of_bytes<T: RecordType>(o: Option<TraceView>, s: Seq<u8>, i: int)
    requires
        o matches Some(t) ==> t.wf(),
        0 <= i,
        i + spec_opt_trace_bytes::<T>(o).len() <= s.len(),
        s.subrange(i, i + spec_opt_trace_bytes::<T>(o).len()) == spec_opt_trace_bytes::<T>(o),
    ensures
        spec_parse_opt_trace::<T>(s, i) == Some((o, i + spec_opt_trace_bytes::<T>(o).len())),
{
    let enc = spec_opt_trace_bytes::<T>(o);
    assert(s.subrange(i, i + enc.len())[0] == s[i + 0]);
    match o {
        Some(t) => {
            let inner = spec_trace_bytes::<T>(t);
            assert((seq![255u8] + inner)[0] == seq![255u8][0]);
            assert(s[i] == 255);
            lemma_concat_split(seq![255u8], inner);
            lemma_subrange_shift(s, i, enc, 1, enc.len() as int);
            crate::trace::lemma_parse_trace_of_bytes::<T>(t, s, i + 1);
        },
        None => {
            assert(enc[0] == 0);
            assert(s[i] == 0);
        },
    }
}

/// Law: the optional-trace byte format is bijective — parsing the
/// encoding of any optional trace gives it back, whether present or
/// absent, consuming all of it.
pub proof fn lemma_opt_trace_codec_roundtrip<T: RecordType>(o: Option<TraceView>)
    requires
        o matches Some(t) ==> t.wf(),
    ensures
        spec_parse_opt_trace::<T>(spec_opt_trace_bytes::<T>(o), 0) == Some(
            (o, spec_opt_trace_bytes::<T>(o).len() as int),
        ),
{
    let enc = spec_opt_trace_bytes::<T>(o);
    assert(enc.subrange(0, enc.len() as int) =~= enc);
    lemma_parse_opt_trace_of_bytes::<T>(o, enc, 0);
}

/// Appends the byte form of an optional trace.
pub fn write_opt_trace<T: RecordType>(out: &mut Vec<u8>, o: &Option<Trace<T>>)
    ensures
        final(out)@ == old(out)@ + spec_opt_trace_bytes::<T>(spec_opt_trace_view(*o)),
{
    match o {
        Some(t) => {
            write_u8(out, 255);
            let bytes = t.to_bytes();
            write_bytes(out, &bytes);
            proof {
                assert(out@ =~= old(out)@ + spec_opt_trace_bytes::<T>(spec_opt_trace_view(*o)));
            }
        },
        None => {
            write_u8(out, 0);
            proof {
                assert(out@ =~= old(out)@ + spec_opt_trace_bytes::<T>(spec_opt_trace_view(*o)));
            }
        },
    }
}

/// Parses an optional trace at a position inside a byte string.
pub fn parse_opt_trace<T: RecordType>(bytes: &Vec<u8>, pos: usize) -> (r: Option<
    (Option<Trace<T>>, usize),
>)
    ensures
        match r {
            Some(p) => {
                &&& spec_parse_opt_trace::<T>(bytes@, pos as int) == Some(
                    (spec_opt_trace_view(p.0), p.1 as int),
                )
                &&& (p.0 matches Some(t) ==> t@.wf())
                &&& pos < p.1 <= bytes@.len()
            },
            None => spec_parse_opt_trace::<T>(bytes@, pos as int) is None,
        },
{
    let (tag, p1) = match read_u8(bytes, pos) {
        Some(p) => p,
        None => {
            return None;
        },
    };
    if tag == 255 {
        match Trace::<T>::parse_at(bytes, p1) {
            Some((t, p2)) => Some((Some(t), p2)),
            None => None,
        }
    } else if tag == 0 {
        Some((None, p1))
    } else {
        None
    }
}

/// The mathematical shape of an index's metadata.
#[verifier::ext_equal]
pub struct IndexMetadataView {
    pub shard: Seq<u8>,
    pub name: Seq<char>,
    pub fragment: Option<TraceView>,
    pub links: Option<TraceView>,
}

impl IndexMetadataView {
    /// The shard is 32 bytes, the name is a valid segment, and any
    /// traces present are well formed.
    pub open spec fn wf(self) -> bool {
        &&& self.shard.len() == 32
        &&& spec_segment_valid(self.name)
        &&& (self.fragment matches Some(t) ==> t.wf())
        &&& (self.links matches Some(t) ==> t.wf())
    }
}

/// The canonical byte layout of index metadata:
/// `shard(32) || name || fragment? || links?`.
pub open spec fn spec_index_metadata_bytes(v: IndexMetadataView) -> Seq<u8> {
    v.shard + spec_segment_bytes(v.name) + spec_opt_trace_bytes::<FragmentRecord>(v.fragment)
        + spec_opt_trace_bytes::<LinksRecord>(v.links)
}

/// Parses index metadata at position `i`.
pub open spec fn spec_parse_index_metadata(s: Seq<u8>, i: int) -> Option<(IndexMetadataView, int)> {
    if 0 <= i && i + 32 <= s.len() {
        match spec_parse_segment(s, i + 32) {
            Some(pn) => match spec_parse_opt_trace::<FragmentRecord>(s, pn.1) {
                Some(pf) => match spec_parse_opt_trace::<LinksRecord>(s, pf.1) {
                    Some(pl) => Some(
                        (
                            IndexMetadataView {
                                shard: s.subrange(i, i + 32),
                                name: pn.0,
                                fragment: pf.0,
                                links: pl.0,
                            },
                            pl.1,
                        ),
                    ),
                    None => None,
                },
                None => None,
            },
            None => None,
        }
    } else {
        None
    }
}

/// Parsing reads back exactly what encoding wrote, wherever the encoding
/// stands in a longer byte string.
pub proof fn lemma_parse_index_metadata_of_bytes(v: IndexMetadataView, s: Seq<u8>, i: int)
    requires
        v.wf(),
        0 <= i,
        i + spec_index_metadata_bytes(v).len() <= s.len(),
        s.subrange(i, i + spec_index_metadata_bytes(v).len()) == spec_index_metadata_bytes(v),
    ensures
        spec_parse_index_metadata(s, i) == Some((v, i + spec_index_metadata_bytes(v).len())),
{
    let enc = spec_index_metadata_bytes(v);
    let seg = spec_segment_bytes(v.name);
    let fo = spec_opt_trace_bytes::<FragmentRecord>(v.fragment);
    let lo = spec_opt_trace_bytes::<LinksRecord>(v.links);
    let n1 = 32int;
    let n12 = n1 + seg.len() as int;
    let n123 = n12 + fo.len() as int;
    let n1234 = n123 + lo.len() as int;
    assert(enc.len() == n1234);
    lemma_concat_split(v.shard + seg + fo, lo);
    lemma_concat_split(v.shard + seg, fo);
    lemma_concat_split(v.shard, seg);
    lemma_concat_prefix_subrange(v.shard + seg + fo, lo, 0, n1);
    lemma_concat_prefix_subrange(v.shard + seg, fo, 0, n1);
    lemma_concat_prefix_subrange(v.shard + seg + fo, lo, n1, n12);
    lemma_concat_prefix_subrange(v.shard + seg, fo, n1, n12);
    lemma_concat_prefix_subrange(v.shard + seg + fo, lo, n12, n123);
    assert(enc.subrange(0, n1) == v.shard);
    assert(enc.subrange(n1, n12) == seg);
    assert(enc.subrange(n12, n123) == fo);
    assert(enc.subrange(n123, n1234) == lo);
    lemma_subrange_shift(s, i, enc, 0, n1);
    lemma_subrange_shift(s, i, enc, n1, n12);
    lemma_subrange_shift(s, i, enc, n12, n123);
    lemma_subrange_shift(s, i, enc, n123, n1234);
    assert(s.subrange(i + 0, i + n1) == v.shard);
    crate::path::lemma_parse_segment_of_bytes(v.name, s, i + n1);
    lemma_parse_opt_trace_of_bytes::<FragmentRecord>(v.fragment, s, i + n12);
    lemma_parse_opt_trace_of_bytes::<LinksRecord>(v.links, s, i + n123);
    assert(spec_parse_index_metadata(s, i)->Some_0.0 =~= v);
}

/// Law: the index-metadata byte format is bijective — parsing the
/// encoding of any well-formed metadata gives that metadata back,
/// consuming all of it.
pub proof fn lemma_index_metadata_codec_roundtrip(v: IndexMetadataView)
    requires
        v.wf(),
    ensures
        spec_parse_index_metadata(spec_index_metadata_bytes(v), 0) == Some(
            (v, spec_index_metadata_bytes(v).len() as int),
        ),
{
    let enc = spec_index_metadata_bytes(v);
    assert(enc.subrange(0, enc.len() as int) =~= enc);
    lemma_parse_index_metadata_of_bytes(v, enc, 0);
}

/// What an index record stores: the owner shard, the document name, and
/// optional traces of the document's fragment and links.
#[derive(Debug)]
pub struct IndexMetadata {
    shard: Shard,
    name: Segment,
    fragment: Option<Trace<FragmentRecord>>,
    links: Option<Trace<LinksRecord>>,
}

impl View for IndexMetadata {
    type V = IndexMetadataView;

    closed spec fn view(&self) -> IndexMetadataView {
        IndexMetadataView {
            shard: self.shard@,
            name: self.name@,
            fragment: spec_opt_trace_view(self.fragment),
            links: spec_opt_trace_view(self.links),
        }
    }
}

impl IndexMetadata {
    #[verifier::type_invariant]
    /// Every metadata value is well formed.
    pub open spec fn inv(&self) -> bool {
        self@.wf()
    }

    /// Fresh metadata for a named document with no fragment and no
    /// links.
    pub fn new(shard: &Shard, name: &Segment) -> (r: Self)
        ensures
            r@ == (IndexMetadataView {
                shard: shard@,
                name: name@,
                fragment: None,
                links: None,
            }),
    {
        proof {
            use_type_invariant(shard);
            use_type_invariant(name);
        }
        IndexMetadata { shard: shard.clone(), name: name.clone(), fragment: None, links: None }
    }

    /// The owner shard.
    pub fn shard(&self) -> (r: &Shard)
        ensures
            r@ == self@.shard,
            self@.wf(),
    {
        proof {
            use_type_invariant(self);
        }
        &self.shard
    }

    /// The same metadata under another owner shard.
    pub fn with_shard(&self, shard: &Shard) -> (r: Self)
        ensures
            r@ == (IndexMetadataView { shard: shard@, ..self@ }),
    {
        proof {
            use_type_invariant(self);
            use_type_invariant(shard);
        }
        IndexMetadata {
            shard: shard.clone(),
            name: self.name.clone(),
            fragment: clone_opt_trace(&self.fragment),
            links: clone_opt_trace(&self.links),
        }
    }

    /// The document name.
    pub fn name(&self) -> (r: &Segment)
        ensures
            r@ == self@.name,
            self@.wf(),
    {
        proof {
            use_type_invariant(self);
        }
        &self.name
    }

    /// The same metadata under another name.
    pub fn with_name(&self, name: &Segment) -> (r: Self)
        ensures
            r@ == (IndexMetadataView { name: name@, ..self@ }),
    {
        proof {
            use_type_invariant(self);
            use_type_invariant(name);
        }
        IndexMetadata {
            shard: self.shard.clone(),
            name: name.clone(),
            fragment: clone_opt_trace(&self.fragment),
            links: clone_opt_trace(&self.links),
        }
    }

    /// The trace of the document body, if any.
    pub fn fragment(&self) -> (r: &Option<Trace<FragmentRecord>>)
        ensures
            spec_opt_trace_view(*r) == self@.fragment,
            self@.wf(),
    {
        proof {
            use_type_invariant(self);
        }
        &self.fragment
    }

    /// The same metadata pointing at a fragment.
    pub fn with_fragment(&self, fragment: &Trace<FragmentRecord>) -> (r: Self)
        ensures
            r@ == (IndexMetadataView { fragment: Some(fragment@), ..self@ }),
    {
        proof {
            use_type_invariant(self);
            use_type_invariant(fragment);
        }
        IndexMetadata {
            shard: self.shard.clone(),
            name: self.name.clone(),
            fragment: Some(fragment.clone()),
            links: clone_opt_trace(&self.links),
        }
    }

    /// The same metadata with no fragment.
    pub fn without_fragment(&self) -> (r: Self)
        ensures
            r@ == (IndexMetadataView { fragment: None, ..self@ }),
    {
        proof {
            use_type_invariant(self);
        }
        IndexMetadata {
            shard: self.shard.clone(),
            name: self.name.clone(),
            fragment: None,
            links: clone_opt_trace(&self.links),
        }
    }

    /// The trace of the links record, if any.
    pub fn links(&self) -> (r: &Option<Trace<LinksRecord>>)
        ensures
            spec_opt_trace_view(*r) == self@.links,
            self@.wf(),
    {
        proof {
            use_type_invariant(self);
        }
        &self.links
    }

    /// The same metadata pointing at a links record.
    pub fn with_links(&self, links: &Trace<LinksRecord>) -> (r: Self)
        ensures
            r@ == (IndexMetadataView { links: Some(links@), ..self@ }),
    {
        proof {
            use_type_invariant(self);
            use_type_invariant(links);
        }
        IndexMetadata {
            shard: self.shard.clone(),
            name: self.name.clone(),
            fragment: clone_opt_trace(&self.fragment),
            links: Some(links.clone()),
        }
    }

    /// The same metadata with no links.
    pub fn without_links(&self) -> (r: Self)
        ensures
            r@ == (IndexMetadataView { links: None, ..self@ }),
    {
        proof {
            use_type_invariant(self);
        }
        IndexMetadata {
            shard: self.shard.clone(),
            name: self.name.clone(),
            fragment: clone_opt_trace(&self.fragment),
            links: None,
        }
    }

    /// Encodes the metadata into its canonical byte layout.
    pub fn to_bytes(&self) -> (r: Vec<u8>)
        ensures
            r@ == spec_index_metadata_bytes(self@),
            self@.wf(),
    {
        proof {
            use_type_invariant(self);
        }
        let mut out: Vec<u8> = Vec::new();
        write_bytes(&mut out, self.shard.bytes());
        self.name.write(&mut out);
        write_opt_trace(&mut out, &self.fragment);
        write_opt_trace(&mut out, &self.links);
        proof {
            assert(out@ =~= spec_index_metadata_bytes(self@));
        }
        out
    }

    /// Parses metadata at a position inside a byte string.
    pub fn parse_at(bytes: &Vec<u8>, pos: usize) -> (r: Option<(Self, usize)>)
        ensures
            match r {
                Some(p) => {
                    &&& spec_parse_index_metadata(bytes@, pos as int) == Some((p.0@, p.1 as int))
                    &&& p.0@.wf()
                    &&& pos < p.1 <= bytes@.len()
                },
                None => spec_parse_index_metadata(bytes@, pos as int) is None,
            },
    {
        let (shard_bytes, p1) = match read_exact(bytes, pos, 32) {
            Some(p) => p,
            None => {
                return None;
            },
        };
        let (name, p2) = match Segment::parse_at(bytes, p1) {
            Some(p) => p,
            None => {
                return None;
            },
        };
        let (fragment, p3) = match parse_opt_trace::<FragmentRecord>(bytes, p2) {
            Some(p) => p,
            None => {
                return None;
            },
        };
        let (links, p4) = match parse_opt_trace::<LinksRecord>(bytes, p3) {
            Some(p) => p,
            None => {
                return None;
            },
        };
        let meta = IndexMetadata { shard: Shard::from_bytes(shard_bytes), name, fragment, links };
        proof {
            assert(spec_parse_index_metadata(bytes@, pos as int)->Some_0.0 =~= meta@);
        }
        Some((meta, p4))
    }

    /// Decodes metadata from the start of a byte string.
    pub fn from_bytes(bytes: &Vec<u8>) -> (r: Option<Self>)
        ensures
            match r {
                Some(meta) => {
                    &&& spec_parse_index_metadata(bytes@, 0) is Some
                    &&& spec_parse_index_metadata(bytes@, 0)->Some_0.0 == meta@
                    &&& meta@.wf()
                },
                None => spec_parse_index_metadata(bytes@, 0) is None,
            },
    {
        match Self::parse_at(bytes, 0) {
            Some((meta, _)) => Some(meta),
            None => None,
        }
    }
}

/// Clones an optional trace.
fn clone_opt_trace<T: RecordType>(o: &Option<Trace<T>>) -> (r: Option<Trace<T>>)
    ensures
        spec_opt_trace_view(r) == spec_opt_trace_view(*o),
{
    match o {
        Some(t) => Some(t.clone()),
        None => None,
    }
}

impl Clone for IndexMetadata {
    fn clone(&self) -> (r: Self)
        ensures
            r@ == self@,
    {
        proof {
            use_type_invariant(self);
        }
        IndexMetadata {
            shard: self.shard.clone(),
            name: self.name.clone(),
            fragment: clone_opt_trace(&self.fragment),
            links: clone_opt_trace(&self.links),
        }
    }
}

/// Whether two optional traces hold the same value.
fn eq_opt_trace<T: RecordType>(a: &Option<Trace<T>>, b: &Option<Trace<T>>) -> (r: bool)
    ensures
        r == (spec_opt_trace_view(*a) == spec_opt_trace_view(*b)),
{
    match (a, b) {
        (Some(x), Some(y)) => {
            let r = x == y;
            proof {
                if x@ == y@ {
                    assert(spec_opt_trace_view(*a) == spec_opt_trace_view(*b));
                }
            }
            r
        },
        (None, None) => true,
        _ => false,
    }
}

impl PartialEq for IndexMetadata {
    fn eq(&self, other: &Self) -> (r: bool) {
        let r = self.shard == other.shard && self.name == other.name && eq_opt_trace(
            &self.fragment,
            &other.fragment,
        ) && eq_opt_trace(&self.links, &other.links);
        proof {
            if r {
                assert(self@ =~= other@);
            }
        }
        r
    }
}

impl vstd::std_specs::cmp::PartialEqSpecImpl for IndexMetadata {
    open spec fn obeys_eq_spec() -> bool {
        true
    }

    open spec fn eq_spec(&self, other: &Self) -> bool {
        self@ == other@
    }
}

/// The mathematical shape of a link entry.
#[verifier::ext_equal]
pub struct LinkEntryView {
    pub name: Seq<char>,
    pub trace: TraceView,
}

impl LinkEntryView {
    /// The name is a valid segment and the trace is well formed.
    pub open spec fn wf(self) -> bool {
        &&& spec_segment_valid(self.name)
        &&& self.trace.wf()
    }
}

/// The canonical byte layout of a link entry: `name || trace`.
pub open spec fn spec_link_entry_bytes(v: LinkEntryView) -> Seq<u8> {
    spec_segment_bytes(v.name) + spec_trace_bytes::<IndexRecord>(v.trace)
}

/// Parses a link entry at position `i`.
pub open spec fn spec_parse_link_entry(s: Seq<u8>, i: int) -> Option<(LinkEntryView, int)> {
    match spec_parse_segment(s, i) {
        Some(pn) => match spec_parse_trace::<IndexRecord>(s, pn.1) {
            Some(pt) => Some((LinkEntryView { name: pn.0, trace: pt.0 }, pt.1)),
            None => None,
        },
        None => None,
    }
}

/// Parsing reads back exactly what encoding wrote, wherever the encoding
/// stands in a longer byte string.
pub proof fn lemma_parse_link_entry_of_bytes(v: LinkEntryView, s: Seq<u8>, i: int)
    requires
        v.wf(),
        0 <= i,
        i + spec_link_entry_bytes(v).len() <= s.len(),
        s.subrange(i, i + spec_link_entry_bytes(v).len()) == spec_link_entry_bytes(v),
    ensures
        spec_parse_link_entry(s, i) == Some((v, i + spec_link_entry_bytes(v).len())),
{
    let enc = spec_link_entry_bytes(v);
    let seg = spec_segment_bytes(v.name);
    let tr = spec_trace_bytes::<IndexRecord>(v.trace);
    let n1 = seg.len() as int;
    let n12 = n1 + tr.len() as int;
    lemma_concat_split(seg, tr);
    lemma_subrange_shift(s, i, enc, 0, n1);
    lemma_subrange_shift(s, i, enc, n1, n12);
    assert(s.subrange(i + 0, i + n1) == seg);
    crate::path::lemma_parse_segment_of_bytes(v.name, s, i);
    crate::trace::lemma_parse_trace_of_bytes::<IndexRecord>(v.trace, s, i + n1);
    assert(spec_parse_link_entry(s, i)->Some_0.0 =~= v);
}

/// Law: the link-entry byte format is bijective — parsing the encoding
/// of any well-formed link entry gives that entry back, consuming all of
/// it.
pub proof fn lemma_link_entry_codec_roundtrip(v: LinkEntryView)
    requires
        v.wf(),
    ensures
        spec_parse_link_entry(spec_link_entry_bytes(v), 0) == Some(
            (v, spec_link_entry_bytes(v).len() as int),
        ),
{
    let enc = spec_link_entry_bytes(v);
    assert(enc.subrange(0, enc.len() as int) =~= enc);
    lemma_parse_link_entry_of_bytes(v, enc, 0);
}

/// One named reference to another index, stored on its own subkey of a
/// links record.
#[derive(Debug)]
pub struct LinkEntry {
    name: Segment,
    trace: Trace<IndexRecord>,
}

impl View for LinkEntry {
    type V = LinkEntryView;

    closed spec fn view(&self) -> LinkEntryView {
        LinkEntryView { name: self.name@, trace: self.trace@ }
    }
}

impl LinkEntry {
    #[verifier::type_invariant]
    /// Every link entry is well formed.
    pub open spec fn inv(&self) -> bool {
        self@.wf()
    }

    /// Binds a name to the trace of an index.
    pub fn new(name: &Segment, trace: &Trace<IndexRecord>) -> (r: Self)
        ensures
            r@ == (LinkEntryView { name: name@, trace: trace@ }),
    {
        proof {
            use_type_invariant(name);
            use_type_invariant(trace);
        }
        LinkEntry { name: name.clone(), trace: trace.clone() }
    }

    /// The link's name.
    pub fn name(&self) -> (r: &Segment)
        ensures
            r@ == self@.name,
            self@.wf(),
    {
        proof {
            use_type_invariant(self);
        }
        &self.name
    }

    /// The trace of the index the link points at.
    pub fn trace(&self) -> (r: &Trace<IndexRecord>)
        ensures
            r@ == self@.trace,
            self@.wf(),
    {
        proof {
            use_type_invariant(self);
        }
        &self.trace
    }

    /// Encodes the entry into its canonical byte layout.
    pub fn to_bytes(&self) -> (r: Vec<u8>)
        ensures
            r@ == spec_link_entry_bytes(self@),
            self@.wf(),
    {
        proof {
            use_type_invariant(self);
        }
        let mut out: Vec<u8> = Vec::new();
        self.name.write(&mut out);
        let trace_bytes = self.trace.to_bytes();
        write_bytes(&mut out, &trace_bytes);
        proof {
            assert(out@ =~= spec_link_entry_bytes(self@));
        }
        out
    }

    /// Parses a link entry at a position inside a byte string.
    pub fn parse_at(bytes: &Vec<u8>, pos: usize) -> (r: Option<(Self, usize)>)
        ensures
            match r {
                Some(p) => {
                    &&& spec_parse_link_entry(bytes@, pos as int) == Some((p.0@, p.1 as int))
                    &&& p.0@.wf()
                    &&& pos < p.1 <= bytes@.len()
                },
                None => spec_parse_link_entry(bytes@, pos as int) is None,
            },
    {
        let (name, p1) = match Segment::parse_at(bytes, pos) {
            Some(p) => p,
            None => {
                return None;
            },
        };
        let (trace, p2) = match Trace::<IndexRecord>::parse_at(bytes, p1) {
            Some(p) => p,
            None => {
                return None;
            },
        };
        let entry = LinkEntry { name, trace };
        proof {
            assert(spec_parse_link_entry(bytes@, pos as int)->Some_0.0 =~= entry@);
        }
        Some((entry, p2))
    }

    /// Decodes a link entry from the start of a byte string.
    pub fn from_bytes(bytes: &Vec<u8>) -> (r: Option<Self>)
        ensures
            match r {
                Some(entry) => {
                    &&& spec_parse_link_entry(bytes@, 0) is Some
                    &&& spec_parse_link_entry(bytes@, 0)->Some_0.0 == entry@
                    &&& entry@.wf()
                },
                None => spec_parse_link_entry(bytes@, 0) is None,
            },
    {
        match Self::parse_at(bytes, 0) {
            Some((entry, _)) => Some(entry),
            None => None,
        }
    }
}

impl Clone for LinkEntry {
    fn clone(&self) -> (r: Self)
        ensures
            r@ == self@,
    {
        proof {
            use_type_invariant(self);
        }
        LinkEntry { name: self.name.clone(), trace: self.trace.clone() }
    }
}

impl PartialEq for LinkEntry {
    fn eq(&self, other: &Self) -> (r: bool) {
        let r = self.name == other.name && self.trace == other.trace;
        proof {
            if r {
                assert(self@ =~= other@);
            }
        }
        r
    }
}

impl vstd::std_specs::cmp::PartialEqSpecImpl for LinkEntry {
    open spec fn obeys_eq_spec() -> bool {
        true
    }

    open spec fn eq_spec(&self, other: &Self) -> bool {
        self@ == other@
    }
}

} // verus!
