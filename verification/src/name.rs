//! The naming table: records keyed by the full (platform, encoding,
//! language, name) tuple, kept ascending and duplicate-free, ahead of a
//! variable-length string storage area addressed by offsets from its
//! start.

use vstd::prelude::*;
use vstd::utf8::encode_utf8;

use crate::read::be_bytes_of_u16;
use crate::writer::{OffsetMarker, TableWriter, ValidationCtx, Violation};

verus! {

/// A language-tag record: an offset to its tag string in the storage
/// area.
#[derive(Clone, Debug)]
pub struct LangTagRecord {
    /// Language-tag string offset from start of storage area (in bytes).
    pub lang_tag_offset: OffsetMarker<String>,
}

impl LangTagRecord {
    /// Nothing of a lang-tag record is checked before writing.
    pub fn validate_impl(&self, ctx: &mut ValidationCtx)
        ensures
            final(ctx)@ == old(ctx)@,
    {
    }
}

/// One name record: its identifying key fields and an offset to its
/// string in the storage area.
#[derive(Clone, Debug)]
pub struct NameRecord {
    /// Platform ID.
    pub platform_id: u16,
    /// Platform-specific encoding ID.
    pub encoding_id: u16,
    /// Language ID.
    pub language_id: u16,
    /// Name ID.
    pub name_id: u16,
    /// String offset from start of storage area (in bytes).
    pub string_offset: OffsetMarker<String>,
}

impl NameRecord {
    /// Nothing of a single record is checked before writing.
    pub fn validate_impl(&self, ctx: &mut ValidationCtx)
        ensures
            final(ctx)@ == old(ctx)@,
    {
    }
}

/// The full ordering key of a record.
pub open spec fn spec_key(r: NameRecord) -> (u16, u16, u16, u16) {
    (r.platform_id, r.encoding_id, r.language_id, r.name_id)
}

/// Strict lexicographic order on the full four-field key.
pub open spec fn spec_key_lt(a: NameRecord, b: NameRecord) -> bool {
    ||| a.platform_id < b.platform_id
    ||| (a.platform_id == b.platform_id && a.encoding_id < b.encoding_id)
    ||| (a.platform_id == b.platform_id && a.encoding_id == b.encoding_id && a.language_id
        < b.language_id)
    ||| (a.platform_id == b.platform_id && a.encoding_id == b.encoding_id && a.language_id
        == b.language_id && a.name_id < b.name_id)
}

/// Strictly ascending by the full key, hence duplicate-free.
pub open spec fn records_sorted(s: Seq<NameRecord>) -> bool {
    forall|i: int, j: int| 0 <= i < j < s.len() ==> spec_key_lt(#[trigger] s[i], #[trigger] s[j])
}

/// Whether the first record's key orders strictly before the second's.
fn key_lt(a: &NameRecord, b: &NameRecord) -> (r: bool)
    ensures
        r == spec_key_lt(*a, *b),
{
    if a.platform_id != b.platform_id {
        a.platform_id < b.platform_id
    } else if a.encoding_id != b.encoding_id {
        a.encoding_id < b.encoding_id
    } else if a.language_id != b.language_id {
        a.language_id < b.language_id
    } else {
        a.name_id < b.name_id
    }
}

/// Whether two records share the full key.
fn key_eq(a: &NameRecord, b: &NameRecord) -> (r: bool)
    ensures
        r == (spec_key(*a) == spec_key(*b)),
{
    a.platform_id == b.platform_id && a.encoding_id == b.encoding_id && a.language_id
        == b.language_id && a.name_id == b.name_id
}

/// The naming table.
#[derive(Clone, Debug)]
pub struct Name {
    /// Table version number (0 or 1).
    pub version: u16,
    /// The name records, ascending by key, one per key.
    name_record: Vec<NameRecord>,
    /// The language-tag records; required from version 1 on.
    pub lang_tag_record: Option<Vec<LangTagRecord>>,
}

impl Name {
    /// The records, as a spec-level projection.
    pub closed spec fn spec_records(&self) -> Seq<NameRecord> {
        self.name_record@
    }

    /// The table version, as a spec-level projection.
    pub closed spec fn spec_version(&self) -> u16 {
        self.version
    }

    /// The language-tag records, as a spec-level projection.
    pub closed spec fn spec_lang_tags(&self) -> Option<Vec<LangTagRecord>> {
        self.lang_tag_record
    }

    /// The record list is strictly ascending by the full key.
    pub open spec fn wf(&self) -> bool {
        records_sorted(self.spec_records())
    }

    /// An empty table of the given version.
    pub fn new(version: u16, lang_tag_record: Option<Vec<LangTagRecord>>) -> (r: Name)
        ensures
            r.spec_version() == version,
            r.spec_records() == Seq::<NameRecord>::empty(),
            r.spec_lang_tags() == lang_tag_record,
            r.wf(),
    {
        Name { version, name_record: Vec::new(), lang_tag_record }
    }

    /// The name records, ascending by key.
    pub fn name_record(&self) -> (r: &Vec<NameRecord>)
        ensures
            r@ == self.spec_records(),
    {
        &self.name_record
    }

    /// Insert a record, keeping the list ascending by the full key.  A
    /// record whose key is already present is absorbed: the existing
    /// record stays and the new one is dropped, so each key occurs once.
    pub fn insert(&mut self, rec: NameRecord)
        requires
            old(self).wf(),
        ensures
            final(self).wf(),
            final(self).spec_version() == old(self).spec_version(),
            final(self).spec_lang_tags() == old(self).spec_lang_tags(),
            (exists|j: int|
                0 <= j < old(self).spec_records().len() && spec_key(old(self).spec_records()[j])
                    == spec_key(rec)) ==> final(self).spec_records() == old(self).spec_records(),
            !(exists|j: int|
                0 <= j < old(self).spec_records().len() && spec_key(old(self).spec_records()[j])
                    == spec_key(rec)) ==> exists|p: int|
                {
                    &&& 0 <= p <= old(self).spec_records().len()
                    &&& final(self).spec_records() == old(self).spec_records().take(p) + seq![rec]
                        + old(self).spec_records().skip(p)
                },
    {
        let ghost olds = self.name_record@;
        let n: usize = self.name_record.len();
        let mut p: usize = 0;
        while p < n && key_lt(&self.name_record[p], &rec)
            invariant
                self == old(self),
                n == olds.len(),
                olds == self.name_record@,
                p <= n,
                forall|i: int| 0 <= i < p ==> spec_key_lt(#[trigger] olds[i], rec),
            decreases n - p,
        {
            p = p + 1;
        }
        if p < n && key_eq(&self.name_record[p], &rec) {
            proof {
                assert(spec_key(olds[p as int]) == spec_key(rec));
            }
            return ;
        }
        proof {
            if p < n {
                assert(!spec_key_lt(olds[p as int], rec) && spec_key(olds[p as int]) != spec_key(
                    rec,
                ));
                assert(spec_key_lt(rec, olds[p as int]));
            }
            assert forall|j: int| 0 <= j < olds.len() implies spec_key(#[trigger] olds[j])
                != spec_key(rec) by {
                if j < p {
                    assert(spec_key_lt(olds[j], rec));
                } else if p < n {
                    if j > p {
                        assert(spec_key_lt(olds[p as int], olds[j]));
                    }
                    assert(spec_key_lt(rec, olds[j]));
                }
            }
        }
        self.name_record.insert(p, rec);
        proof {
            let news = self.name_record@;
            assert(news =~= olds.take(p as int) + seq![rec] + olds.skip(p as int));
            assert forall|i: int, j: int| 0 <= i < j < news.len() implies spec_key_lt(
                #[trigger] news[i],
                #[trigger] news[j],
            ) by {
                if i < p && j == p {
                    assert(news[i] == olds[i] && news[j] == rec);
                } else if i == p && j > p {
                    assert(news[i] == rec && news[j] == olds[j - 1]);
                    assert(spec_key_lt(rec, olds[p as int]));
                    if j - 1 > p {
                        assert(spec_key_lt(olds[p as int], olds[j - 1]));
                    }
                } else if i < p && j > p {
                    assert(news[i] == olds[i] && news[j] == olds[j - 1]);
                    assert(spec_key_lt(olds[i], rec));
                    assert(spec_key_lt(rec, olds[j - 1]));
                } else if j < p {
                    assert(news[i] == olds[i] && news[j] == olds[j]);
                } else if i > p {
                    assert(news[i] == olds[i - 1] && news[j] == olds[j - 1]);
                }
            }
            assert(0 <= p as int <= olds.len() && news == olds.take(p as int) + seq![rec]
                + olds.skip(p as int));
        }
    }
}


/// The number of language-tag records; zero when the section is absent.
pub open spec fn spec_lang_count(name: Name) -> int {
    match name.spec_lang_tags() {
        Some(l) => l@.len() as int,
        None => 0,
    }
}

/// The violations the pre-write walk reports for a naming table, in the
/// order it visits the fields.
pub open spec fn spec_name_violations(name: Name) -> Seq<Violation> {
    (if name.spec_records().len() > 65535 {
        seq![Violation::ArrayExceedsMaxLength]
    } else {
        Seq::empty()
    }) + (if name.spec_version() >= 1 && name.spec_lang_tags() is None {
        seq![Violation::MissingVersionedField(name.spec_version())]
    } else {
        Seq::empty()
    }) + (if name.spec_lang_tags() is Some && spec_lang_count(name) > 65535 {
        seq![Violation::ArrayExceedsMaxLength]
    } else {
        Seq::empty()
    })
}

/// Total UTF-8 byte length of the first `i` records' strings.
pub open spec fn spec_strings_len(records: Seq<NameRecord>, i: int) -> int
    decreases i,
{
    if i <= 0 {
        0
    } else {
        spec_strings_len(records, i - 1) + encode_utf8(
            records[i - 1].string_offset.spec_obj()@,
        ).len()
    }
}

/// Total UTF-8 byte length of the first `i` language-tag strings.
pub open spec fn spec_lang_strings_len(tags: Seq<LangTagRecord>, i: int) -> int
    decreases i,
{
    if i <= 0 {
        0
    } else {
        spec_lang_strings_len(tags, i - 1) + encode_utf8(
            tags[i - 1].lang_tag_offset.spec_obj()@,
        ).len()
    }
}

/// One record's ten bytes, its string offset resolved from the storage
/// start.
pub open spec fn spec_record_bytes(r: NameRecord, off: u16) -> Seq<u8> {
    be_bytes_of_u16(r.platform_id) + be_bytes_of_u16(r.encoding_id) + be_bytes_of_u16(
        r.language_id,
    ) + be_bytes_of_u16(r.name_id) + be_bytes_of_u16(off)
}

/// The first `i` records' bytes: each string offset is the length of the
/// strings before it, as a 16-bit value.
pub open spec fn spec_records_bytes(records: Seq<NameRecord>, i: int) -> Seq<u8>
    decreases i,
{
    if i <= 0 {
        Seq::empty()
    } else {
        spec_records_bytes(records, i - 1) + spec_record_bytes(
            records[i - 1],
            (spec_strings_len(records, i - 1) % 0x10000) as u16,
        )
    }
}

/// The first `i` language-tag records' offsets: their strings follow all
/// record strings in the storage area.
pub open spec fn spec_lang_records_bytes(
    records: Seq<NameRecord>,
    tags: Seq<LangTagRecord>,
    i: int,
) -> Seq<u8>
    decreases i,
{
    if i <= 0 {
        Seq::empty()
    } else {
        spec_lang_records_bytes(records, tags, i - 1) + be_bytes_of_u16(
            ((spec_strings_len(records, records.len() as int) + spec_lang_strings_len(tags, i - 1))
                % 0x10000) as u16,
        )
    }
}

/// The first `i` records' strings, UTF-8, concatenated.
pub open spec fn spec_storage_bytes(records: Seq<NameRecord>, i: int) -> Seq<u8>
    decreases i,
{
    if i <= 0 {
        Seq::empty()
    } else {
        spec_storage_bytes(records, i - 1) + encode_utf8(records[i - 1].string_offset.spec_obj()@)
    }
}

/// The first `i` language-tag strings, UTF-8, concatenated.
pub open spec fn spec_lang_storage_bytes(tags: Seq<LangTagRecord>, i: int) -> Seq<u8>
    decreases i,
{
    if i <= 0 {
        Seq::empty()
    } else {
        spec_lang_storage_bytes(tags, i - 1) + encode_utf8(tags[i - 1].lang_tag_offset.spec_obj()@)
    }
}

/// The whole encoded naming table: header, records, the version-1
/// language-tag section, then the string storage area the offsets point
/// into.
pub open spec fn spec_name_encoded(name: Name) -> Seq<u8> {
    let records = name.spec_records();
    let n = records.len() as int;
    let langn = spec_lang_count(name);
    let storage = 6 + 10 * n + if name.spec_version() >= 1 {
        2 + 2 * langn
    } else {
        0
    };
    let tags = match name.spec_lang_tags() {
        Some(l) => l@,
        None => Seq::empty(),
    };
    be_bytes_of_u16(name.spec_version()) + be_bytes_of_u16(n as u16) + be_bytes_of_u16(
        (storage % 0x10000) as u16,
    ) + spec_records_bytes(records, n) + (if name.spec_version() >= 1 {
        be_bytes_of_u16(langn as u16) + spec_lang_records_bytes(records, tags, langn)
    } else {
        Seq::empty()
    }) + spec_storage_bytes(records, n) + (if name.spec_version() >= 1 {
        spec_lang_storage_bytes(tags, langn)
    } else {
        Seq::empty()
    })
}

impl Name {
    /// Walk the table before writing: report counts that cannot fit their
    /// 16-bit fields and a missing version-1 language-tag section; every
    /// violation is collected, none stops the walk.
    pub fn validate_impl(&self, ctx: &mut ValidationCtx)
        ensures
            final(ctx)@ == old(ctx)@ + spec_name_violations(*self),
    {
        if self.name_record.len() > 65535 {
            ctx.report(Violation::ArrayExceedsMaxLength);
        }
        if self.version >= 1 && self.lang_tag_record.is_none() {
            ctx.report(Violation::MissingVersionedField(self.version));
        }
        match &self.lang_tag_record {
            Some(l) => if l.len() > 65535 {
                ctx.report(Violation::ArrayExceedsMaxLength);
            },
            None => {},
        }
        assert(ctx@ =~= old(ctx)@ + spec_name_violations(*self));
    }

    /// Serialize the table: header, records in order with their string
    /// offsets resolved from the storage-area start, the version-1
    /// language-tag section, then every string in declaration order.
    /// Offsets past the 16-bit range wrap, as the offset fields can carry
    /// no more.
    pub fn write_into(&self, writer: &mut TableWriter)
        requires
            self.spec_records().len() <= 65535,
            spec_lang_count(*self) <= 65535,
            self.spec_version() >= 1 ==> self.spec_lang_tags() is Some,
        ensures
            final(writer)@ == old(writer)@ + spec_name_encoded(*self),
    {
        let ghost base = writer@;
        let ghost records = self.spec_records();
        let ghost tags = match self.spec_lang_tags() {
            Some(l) => l@,
            None => Seq::<LangTagRecord>::empty(),
        };
        let count: usize = self.name_record.len();
        let lang_n: usize = match &self.lang_tag_record {
            Some(l) => l.len(),
            None => 0,
        };
        let mut storage: u64 = 6 + 10 * (count as u64);
        if self.version >= 1 {
            storage = storage + 2 + 2 * (lang_n as u64);
        }
        writer.write_u16(self.version);
        writer.write_u16(count as u16);
        writer.write_u16((storage % 0x10000) as u16);
        let ghost hdr = writer@;
        let mut cum: u128 = 0;
        let mut i: usize = 0;
        while i < count
            invariant
                self.name_record@ == records,
                count == records.len(),
                count <= 65535,
                i <= count,
                cum == spec_strings_len(records, i as int),
                cum <= (i as u128) * 0xffff_ffff_ffff_ffff,
                writer@ == hdr + spec_records_bytes(records, i as int),
            decreases count - i,
        {
            let rec = &self.name_record[i];
            let ghost w0 = writer@;
            writer.write_u16(rec.platform_id);
            writer.write_u16(rec.encoding_id);
            writer.write_u16(rec.language_id);
            writer.write_u16(rec.name_id);
            writer.write_u16((cum % 0x10000) as u16);
            proof {
                assert(writer@ =~= w0 + spec_record_bytes(
                    records[i as int],
                    (spec_strings_len(records, i as int) % 0x10000) as u16,
                ));
                assert(writer@ =~= hdr + spec_records_bytes(records, i as int + 1));
            }
            let s: &String = rec.string_offset.get();
            let blen: usize = s.as_str().as_bytes().len();
            proof {
                assert(blen == encode_utf8(records[i as int].string_offset.spec_obj()@).len());
            }
            cum = cum + (blen as u128);
            i = i + 1;
        }
        let ghost after_records = writer@;
        if self.version >= 1 {
            if let Some(l) = &self.lang_tag_record {
                writer.write_u16(l.len() as u16);
                let ghost lhdr = writer@;
                let mut lcum: u128 = cum;
                let mut k: usize = 0;
                while k < l.len()
                    invariant
                        l@ == tags,
                        lang_n == tags.len(),
                        lang_n <= 65535,
                        count <= 65535,
                        k <= lang_n,
                        lcum == spec_strings_len(records, records.len() as int)
                            + spec_lang_strings_len(tags, k as int),
                        lcum <= ((count + k) as u128) * 0xffff_ffff_ffff_ffff,
                        writer@ == lhdr + spec_lang_records_bytes(records, tags, k as int),
                    decreases lang_n - k,
                {
                    let ghost w0 = writer@;
                    writer.write_u16((lcum % 0x10000) as u16);
                    proof {
                        assert(writer@ =~= lhdr + spec_lang_records_bytes(
                            records,
                            tags,
                            k as int + 1,
                        ));
                    }
                    let s: &String = l[k].lang_tag_offset.get();
                    let blen: usize = s.as_str().as_bytes().len();
                    proof {
                        assert(blen == encode_utf8(tags[k as int].lang_tag_offset.spec_obj()@).len());
                    }
                    lcum = lcum + (blen as u128);
                    k = k + 1;
                }
            }
        }
        let ghost after_lang = writer@;
        let mut i2: usize = 0;
        while i2 < count
            invariant
                self.name_record@ == records,
                count == records.len(),
                i2 <= count,
                writer@ == after_lang + spec_storage_bytes(records, i2 as int),
            decreases count - i2,
        {
            let s: &String = self.name_record[i2].string_offset.get();
            writer.write_bytes(s.as_str().as_bytes());
            proof {
                assert(writer@ =~= after_lang + spec_storage_bytes(records, i2 as int + 1));
            }
            i2 = i2 + 1;
        }
        let ghost after_storage = writer@;
        if self.version >= 1 {
            if let Some(l) = &self.lang_tag_record {
                let mut k2: usize = 0;
                while k2 < l.len()
                    invariant
                        l@ == tags,
                        k2 <= tags.len(),
                        writer@ == after_storage + spec_lang_storage_bytes(tags, k2 as int),
                    decreases tags.len() - k2,
                {
                    let s: &String = l[k2].lang_tag_offset.get();
                    writer.write_bytes(s.as_str().as_bytes());
                    proof {
                        assert(writer@ =~= after_storage + spec_lang_storage_bytes(
                            tags,
                            k2 as int + 1,
                        ));
                    }
                    k2 = k2 + 1;
                }
            }
        }
        proof {
            assert(writer@ =~= base + spec_name_encoded(*self));
        }
    }
}

} // verus!
