//! What the daemon runs: the stages of the pipeline, and how much room its
//! disk has.

use crate::text;
use vstd::prelude::*;

verus! {

/// Which stages the operator has switched on.
#[derive(Debug, Clone, Copy)]
pub struct PipelineSwitches {
    /// Writing tags early.
    pub tag_write_early: bool,
    /// Writing tags at the end.
    pub tag_write_final: bool,
}

/// The stages that always run, in the order in which they are declared.
pub open spec fn base_stages() -> Seq<Seq<char>> {
    seq![
        "tag-read"@,
        "fingerprint"@,
        "audible-search"@,
        "audnexus-enrich"@,
        "consensus"@,
        "identity-resolve"@,
        "audnexus-chapters"@,
        "embedded-chapters"@,
        "chapter-pick-winner"@,
        "transcribe-head-tail"@,
        "detect-description-lang"@,
        "transcribe-samples"@,
        "transcribe-full"@,
        "run-transcript-extractors"@,
        "extract-dna-tags"@,
        "extract-summary-spoiler-free"@,
        "extract-story-arc"@,
        "extract-characters"@,
        "extract-setting"@,
        "extract-summary-spoiler-free-series"@,
        "transcode-m4b"@,
    ]
}

/// The stages of the pipeline.
pub open spec fn stages_of(switches: PipelineSwitches) -> Seq<Seq<char>> {
    let early = if switches.tag_write_early {
        base_stages().push("tag-write-early"@)
    } else {
        base_stages()
    };
    if switches.tag_write_final {
        early.push("tag-write-final"@)
    } else {
        early
    }
}

/// The texts of a list of names.
pub open spec fn names(v: Seq<&'static str>) -> Seq<Seq<char>> {
    Seq::new(v.len(), |i: int| v[i]@)
}

/// The stages of the pipeline, in the order in which they are declared.
pub fn build_pipeline_stages(switches: PipelineSwitches) -> (v: Vec<&'static str>)
    ensures
        names(v@) == stages_of(switches),
{
    let mut v: Vec<&'static str> = Vec::new();
    v.push("tag-read");
    v.push("fingerprint");
    v.push("audible-search");
    v.push("audnexus-enrich");
    v.push("consensus");
    v.push("identity-resolve");
    v.push("audnexus-chapters");
    v.push("embedded-chapters");
    v.push("chapter-pick-winner");
    v.push("transcribe-head-tail");
    v.push("detect-description-lang");
    v.push("transcribe-samples");
    v.push("transcribe-full");
    v.push("run-transcript-extractors");
    v.push("extract-dna-tags");
    v.push("extract-summary-spoiler-free");
    v.push("extract-story-arc");
    v.push("extract-characters");
    v.push("extract-setting");
    v.push("extract-summary-spoiler-free-series");
    v.push("transcode-m4b");
    if switches.tag_write_early {
        v.push("tag-write-early");
    }
    if switches.tag_write_final {
        v.push("tag-write-final");
    }
    proof {
        assert(names(v@) =~= stages_of(switches));
    }
    v
}

/// The address that a server binds to.
pub fn bind_address(host: &str, port: u16) -> (s: String)
    ensures
        s@ == host@ + ":"@ + text::decimal(port as nat),
{
    let mut s = text::owned(host);
    s.append(":");
    s.append(text::u64_text(port as u64).as_str());
    s
}

/// What the file system says of a disk.
#[derive(Debug, Clone, Copy)]
pub struct DiskBlocks {
    /// Bytes of a block.
    pub block_size: u64,
    /// Blocks that are free.
    pub free_blocks: u64,
    /// Blocks in all.
    pub total_blocks: u64,
}

/// A product, at most the largest value.
pub open spec fn capped_product(a: int, b: int) -> int {
    if a * b > u64::MAX {
        u64::MAX as int
    } else {
        a * b
    }
}

/// Free and total bytes of a disk. A disk of which nothing is known counts as
/// one with infinite room.
pub fn disk_bytes(blocks: Option<DiskBlocks>) -> (r: (u64, u64))
    ensures
        match blocks {
            Some(b) => {
                &&& r.0 == capped_product(b.free_blocks as int, b.block_size as int)
                &&& r.1 == capped_product(b.total_blocks as int, b.block_size as int)
            },
            None => r == (u64::MAX, u64::MAX),
        },
{
    match blocks {
        Some(b) => (
            match b.free_blocks.checked_mul(b.block_size) {
                Some(n) => n,
                None => u64::MAX,
            },
            match b.total_blocks.checked_mul(b.block_size) {
                Some(n) => n,
                None => u64::MAX,
            },
        ),
        None => (u64::MAX, u64::MAX),
    }
}

/// No more bytes are free than there are, where that holds of the blocks.
pub proof fn law_free_within_total(b: DiskBlocks)
    requires
        b.free_blocks <= b.total_blocks,
    ensures
        capped_product(b.free_blocks as int, b.block_size as int) <= capped_product(
            b.total_blocks as int,
            b.block_size as int,
        ),
{
    assert(b.free_blocks * b.block_size <= b.total_blocks * b.block_size) by (nonlinear_arith)
        requires
            b.free_blocks <= b.total_blocks,
    ;
}

/// The optional stages come after all others and only where they are switched
/// on.
pub proof fn law_optional_stages(switches: PipelineSwitches)
    ensures
        stages_of(switches).take(base_stages().len() as int) == base_stages(),
        stages_of(switches).len() == base_stages().len() + (if switches.tag_write_early {
            1int
        } else {
            0
        }) + (if switches.tag_write_final {
            1int
        } else {
            0
        }),
{
    assert(stages_of(switches).take(base_stages().len() as int) =~= base_stages());
}

/// The stages are declared in this order.
pub proof fn law_declared_order(switches: PipelineSwitches)
    ensures
        base_stages().len() == 21,
        stages_of(switches)[0] == "tag-read"@,
        stages_of(switches)[1] == "fingerprint"@,
        stages_of(switches)[2] == "audible-search"@,
        stages_of(switches)[3] == "audnexus-enrich"@,
        stages_of(switches)[4] == "consensus"@,
        stages_of(switches)[5] == "identity-resolve"@,
        stages_of(switches)[6] == "audnexus-chapters"@,
        stages_of(switches)[7] == "embedded-chapters"@,
        stages_of(switches)[8] == "chapter-pick-winner"@,
        stages_of(switches)[9] == "transcribe-head-tail"@,
        stages_of(switches)[10] == "detect-description-lang"@,
        stages_of(switches)[11] == "transcribe-samples"@,
        stages_of(switches)[12] == "transcribe-full"@,
        stages_of(switches)[13] == "run-transcript-extractors"@,
        stages_of(switches)[14] == "extract-dna-tags"@,
        stages_of(switches)[15] == "extract-summary-spoiler-free"@,
        stages_of(switches)[16] == "extract-story-arc"@,
        stages_of(switches)[17] == "extract-characters"@,
        stages_of(switches)[18] == "extract-setting"@,
        stages_of(switches)[19] == "extract-summary-spoiler-free-series"@,
        stages_of(switches)[20] == "transcode-m4b"@,
{
}

/// Behind the stages that always run stands the early writing of tags where it
/// is switched on, and at the very end the final one where that is.
pub proof fn law_switched_stages(switches: PipelineSwitches)
    ensures
        switches.tag_write_early ==> stages_of(switches)[21] == "tag-write-early"@,
        switches.tag_write_final ==> stages_of(switches).last() == "tag-write-final"@,
        switches.tag_write_early && switches.tag_write_final ==> stages_of(switches).len() == 23,
        switches.tag_write_early != switches.tag_write_final ==> stages_of(switches).len() == 22,
        !switches.tag_write_early && !switches.tag_write_final ==> stages_of(switches).len() == 21,
{
}

/// A list of names has one text for each, in the same order.
pub proof fn law_names_in_order(v: Seq<&'static str>, i: int)
    requires
        0 <= i < v.len(),
    ensures
        names(v).len() == v.len(),
        names(v)[i] == v[i]@,
{
}

/// Bytes are blocks times their size, as far as that fits.
pub proof fn law_bytes_of_blocks(blocks: u64, size: u64)
    ensures
        blocks * size <= u64::MAX ==> capped_product(blocks as int, size as int) == blocks * size,
        blocks * size > u64::MAX ==> capped_product(blocks as int, size as int) == u64::MAX,
{
}

} // verus!
