//! What holds of every report: how books are counted, sorted and cut into
//! pages, and what stands in a page.

use crate::audit::entry;
use crate::audit::report;
use crate::audit::seed;
use crate::ordering;
use crate::text;
use vstd::prelude::*;

verus! {

// ── Texts ──────────────────────────────────────────────────────────
/// Five signs are replaced by their names, and every other stands for itself.
pub proof fn law_escaped_signs(c: char)
    ensures
        report::escaped_char('&') == "&amp;"@,
        report::escaped_char('<') == "&lt;"@,
        report::escaped_char('>') == "&gt;"@,
        report::escaped_char('"') == "&quot;"@,
        report::escaped_char('\'') == "&#39;"@,
        c != '&' && c != '<' && c != '>' && c != '"' && c != '\'' ==> report::escaped_char(c)
            == seq![c],
{
}

/// A text is escaped sign by sign, so that its parts can be escaped apart.
pub proof fn law_escaped_apart(s: Seq<char>, t: Seq<char>, c: char)
    ensures
        report::escaped(Seq::empty()) == Seq::<char>::empty(),
        report::escaped(seq![c]) == report::escaped_char(c),
        report::escaped(s + t) == report::escaped(s) + report::escaped(t),
    decreases t.len(),
{
    assert(seq![c].drop_last() =~= Seq::<char>::empty());
    assert(report::escaped(Seq::<char>::empty()) =~= Seq::<char>::empty());
    assert(Seq::<char>::empty() + report::escaped_char(c) =~= report::escaped_char(c));
    if t.len() == 0 {
        assert(s + t =~= s);
        assert(report::escaped(s) + report::escaped(t) =~= report::escaped(s));
    } else {
        law_escaped_apart(s, t.drop_last(), c);
        assert((s + t).drop_last() =~= s + t.drop_last());
        assert((s + t).last() == t.last());
        assert(report::escaped(s) + (report::escaped(t.drop_last()) + report::escaped_char(
            t.last(),
        )) =~= report::escaped(s) + report::escaped(t.drop_last()) + report::escaped_char(
            t.last(),
        ));
    }
}

/// A time reads back: two digits or more of minutes, two of seconds and three
/// of milliseconds. Where there is none, a dash stands.
pub proof fn law_time_reads_back(ms: u64)
    requires
        ms < 6_000_000,
    ensures
        ({
            let t = report::ms_text(Some(ms));
            &&& t.len() == 9
            &&& t[2] == ':'
            &&& t[5] == '.'
            &&& ms == 60_000 * text::number_read(t.subrange(0, 2)) + 1000 * text::number_read(
                t.subrange(3, 5),
            ) + text::number_read(t.subrange(6, 9))
            &&& text::number_read(t.subrange(3, 5)) < 60
        }),
        report::ms_text(None) == "—"@,
{
    reveal_strlit(":");
    reveal_strlit(".");
    let (m, s, r) = ((ms / 60_000) as nat, (ms / 1000 % 60) as nat, (ms % 1000) as nat);
    text::law_zero_padded_reads_back(m, 2);
    text::law_zero_padded_reads_back(s, 2);
    text::law_zero_padded_reads_back(r, 3);
    let t = report::ms_text(Some(ms));
    assert(m < 100 && s < 60 && r < 1000);
    assert(t.subrange(0, 2) =~= text::zero_padded(m, 2));
    assert(t.subrange(3, 5) =~= text::zero_padded(s, 2));
    assert(t.subrange(6, 9) =~= text::zero_padded(r, 3));
}

/// A longer time only has more digits of minutes.
pub proof fn law_long_time(ms: u64)
    ensures
        report::ms_text(Some(ms)) == text::zero_padded((ms as nat) / 60_000, 2) + ":"@
            + text::zero_padded((ms as nat) / 1000 % 60, 2) + "."@ + text::zero_padded(
            (ms as nat) % 1000,
            3,
        ),
{
}

/// The number of a page reads back from the name of its file, so that no two
/// pages share a file.
pub proof fn law_page_names(a: nat, b: nat)
    ensures
        ({
            let name = report::page_name(a);
            let digits = name.subrange(5, name.len() - 5);
            &&& name.len() >= 12
            &&& name.take(5) == "page-"@
            &&& name.skip(name.len() - 5) == ".html"@
            &&& text::all_digits(digits)
            &&& text::number_read(digits) == a
            &&& a < 100 ==> digits.len() == 2
        }),
        report::page_name(a) == report::page_name(b) ==> a == b,
{
    lemma_page_name(a);
    lemma_page_name(b);
}

proof fn lemma_page_name(a: nat)
    ensures
        ({
            let name = report::page_name(a);
            let digits = name.subrange(5, name.len() - 5);
            &&& name.len() >= 12
            &&& name.take(5) == "page-"@
            &&& name.skip(name.len() - 5) == ".html"@
            &&& text::all_digits(digits)
            &&& text::number_read(digits) == a
            &&& a < 100 ==> digits.len() == 2
        }),
{
    reveal_strlit("page-");
    reveal_strlit(".html");
    text::law_zero_padded_reads_back(a, 2);
    let name = report::page_name(a);
    assert(name.subrange(5, name.len() - 5) =~= text::zero_padded(a, 2));
    assert(name.take(5) =~= "page-"@);
    assert(name.skip(name.len() - 5) =~= ".html"@);
}

/// One thing has no ending, and none or several have one.
pub proof fn law_plural(n: nat)
    ensures
        report::plural(1).len() == 0,
        n != 1 ==> report::plural(n) == "s"@,
{
    reveal_strlit("");
}

// ── Publishers ─────────────────────────────────────────────────────
/// A publisher is shown as its tag has it and sorted by its lower-case form. A
/// tag that is missing or only blanks is none, and all of those share one label
/// and one key.
pub proof fn law_publisher_labels(tag: Seq<char>)
    ensures
        !report::has_publisher(None),
        report::has_publisher(Some(tag)) <==> exists|i: int|
            0 <= i < tag.len() && !text::white(#[trigger] tag[i]),
        report::has_publisher(Some(tag)) ==> report::display_of(Some(tag)) == tag
            && report::sort_key_of(Some(tag)) == text::lowercased(tag),
        !report::has_publisher(Some(tag)) ==> report::display_of(Some(tag)) == report::display_of(
            None,
        ) && report::sort_key_of(Some(tag)) == report::sort_key_of(None),
        report::display_of(None) == "(no publisher)"@,
        report::sort_key_of(None) == "\u{10FFFF}\u{10FFFF}\u{10FFFF}"@,
        report::real_publisher(Some(tag)) <==> report::has_publisher(Some(tag)) && tag[0]
            != '\u{10FFFF}',
        !report::real_publisher(None),
{
    text::law_trim_takes_whitespace(tag);
}

/// A seed counts under the label of its publisher, and each once.
pub proof fn law_seeds_counted(seeds: Seq<seed::SeedFingerprint>, key: Seq<char>, n: nat)
    requires
        n < seeds.len(),
    ensures
        report::seed_label(seeds[n as int]) == report::display_of(
            text::opt_text(seeds[n as int].publisher),
        ),
        report::seeds_labelled(seeds, key, 0) == 0,
        report::seed_label(seeds[n as int]) == key ==> report::seeds_labelled(seeds, key, n + 1)
            == report::seeds_labelled(seeds, key, n) + 1,
        report::seed_label(seeds[n as int]) != key ==> report::seeds_labelled(seeds, key, n + 1)
            == report::seeds_labelled(seeds, key, n),
{
}

/// Counts list no publisher twice, none without a seed, and leave no seed's
/// publisher out.
pub proof fn law_counts(
    counts: Seq<report::SeedCount>,
    seeds: Seq<seed::SeedFingerprint>,
    i: int,
    j: int,
    k: int,
)
    requires
        report::counted(counts, seeds),
    ensures
        0 <= i < j < counts.len() ==> counts[i].publisher@ != counts[j].publisher@,
        0 <= i < counts.len() ==> counts[i].count > 0 && counts[i].count == report::seeds_labelled(
            seeds,
            counts[i].publisher@,
            seeds.len(),
        ),
        0 <= k < seeds.len() ==> exists|c: int|
            0 <= c < counts.len() && (#[trigger] counts[c]).publisher@ == report::seed_label(
                seeds[k],
            ),
{
    if 0 <= k < seeds.len() {
        assert(report::lists_publisher(counts, report::seed_label(seeds[k])));
    }
}

/// The total adds up the counts, each once.
pub proof fn law_total(counts: Seq<report::SeedCount>, n: nat)
    requires
        n < counts.len(),
    ensures
        report::total_of(counts, 0) == 0,
        report::total_of(counts, n + 1) == report::total_of(counts, n) + counts[n as int].count,
{
}

// ── Detections ─────────────────────────────────────────────────────
/// The front is cut where the front matched and the end where the end did; a
/// side without a match is not cut.
pub proof fn law_cuts(
    f: entry::SeedMatchSummary,
    front: Option<entry::SeedMatchSummary>,
    end: Option<entry::SeedMatchSummary>,
)
    ensures
        report::match_ms(None) is None,
        report::match_ms(Some(f)) == Some(f.approx_offset_ms),
        report::front_cut(entry::DetectionInfo::Stub) is None,
        report::end_cut(entry::DetectionInfo::Stub) is None,
        report::front_cut(entry::DetectionInfo::NoCandidate) is None,
        report::end_cut(entry::DetectionInfo::NoCandidate) is None,
        report::front_cut((entry::DetectionInfo::SeedMatch { front, end })) == report::match_ms(
            front,
        ),
        report::end_cut((entry::DetectionInfo::SeedMatch { front, end })) == report::match_ms(end),
{
}

/// A cut that detection gives is taken as it is given, front and end.
pub proof fn law_given_cuts(d: entry::DetectionInfo)
    requires
        d is Detected,
    ensures
        report::front_cut(d) == d->front_cut_ms,
        report::end_cut(d) == d->end_cut_ms,
        report::method_html(d) == "<span class=\"badge detected\">"@ + report::escaped(
            d->method_label@,
        ) + "</span>"@,
        report::trigger_html(d) == report::escaped(d->trigger_summary@),
        report::state_text(d) == "detected"@,
{
}

/// Every kind of detection has its state, its badge and what triggered it.
pub proof fn law_detections(
    front: Option<entry::SeedMatchSummary>,
    end: Option<entry::SeedMatchSummary>,
)
    ensures
        report::state_text(entry::DetectionInfo::Stub) == "stub"@,
        report::state_text(entry::DetectionInfo::NoCandidate) == "no_candidate"@,
        report::state_text((entry::DetectionInfo::SeedMatch { front, end })) == "seed_match"@,
        report::method_html(entry::DetectionInfo::Stub)
            == "<span class=\"badge stub\">No seed match</span>"@,
        report::method_html(entry::DetectionInfo::NoCandidate)
            == "<span class=\"badge none\">No candidate</span>"@,
        report::method_html((entry::DetectionInfo::SeedMatch { front, end }))
            == "<span class=\"badge seed-match\">Seed match</span>"@,
        report::trigger_html(entry::DetectionInfo::Stub)
            == "<em>No publisher-compatible seed matched. Operator rates the clips; transcript / silence cascade not yet wired.</em>"@,
        report::trigger_html(entry::DetectionInfo::NoCandidate)
            == "Detection ran; no method fired above threshold. Book likely clean (no audiologo)."@,
        report::trigger_html((entry::DetectionInfo::SeedMatch { front, end }))
            == report::seed_trigger_html(front, end),
{
}

/// A match is told for each side that has one, the front first, with its
/// publisher, likeness and length.
pub proof fn law_match_sides(
    label: Seq<char>,
    f: entry::SeedMatchSummary,
    e: entry::SeedMatchSummary,
)
    ensures
        report::seed_trigger_html(None, None) == "<em>(no side matched)</em>"@,
        report::seed_trigger_html(Some(f), None) == report::side_html("Front"@, f),
        report::seed_trigger_html(None, Some(e)) == report::side_html("End"@, e),
        report::seed_trigger_html(Some(f), Some(e)) == report::side_html("Front"@, f)
            + report::side_html("End"@, e),
        ({
            let publisher = if f.publisher is Some { f.publisher->0@ } else { "?"@ };
            report::side_html(label, f) == "<div>"@ + label + ": <strong>"@ + report::escaped(
                publisher,
            ) + "</strong> · cosine "@ + f.confidence_shown@ + " <span class=\"muted\">("@
                + text::decimal(f.seed_windows as nat) + " × 100ms windows)</span></div>"@
        }),
{
    assert(report::side_html("Front"@, f) + Seq::<char>::empty() =~= report::side_html(
        "Front"@,
        f,
    ));
    assert(Seq::<char>::empty() + report::side_html("End"@, e) =~= report::side_html("End"@, e));
}

/// A detail clip is shown where there is one: its length, where in the overview
/// it begins, its waveform and its sound.
pub proof fn law_detail_clip(d: entry::DetailClip)
    ensures
        report::detail_html(None).len() == 0,
        report::detail_html(Some(d))
            == "<div class=\"detail-clip\">\n        <h4>Detail · "@ + text::decimal(
            d.duration_secs as nat,
        ) + "s from "@ + report::ms_text(Some(d.start_offset_in_overview_ms))
            + " <span class=\"muted\">in the overview</span></h4>\n        <div class=\"wave\">"@
            + d.waveform_svg@ + "</div>\n        <audio controls preload=\"none\" src=\""@
            + report::escaped(d.clip_rel@) + "\"></audio>\n      </div>"@,
{
}

/// A text that is there is shown, and its replacement where it is not.
pub proof fn law_text_or(s: String, absent: Seq<char>)
    ensures
        report::text_or(Some(s), absent) == s@,
        report::text_or(None, absent) == absent,
{
}

/// A badge counts the seeds where there are any.
pub proof fn law_badges(n: nat)
    requires
        n > 1,
    ensures
        report::chip_html(0).len() == 0,
        report::chip_html(1) == " <span class=\"seed-badge\">"@ + text::decimal(1)
            + " known seed"@ + "</span>"@,
        report::chip_html(n) == " <span class=\"seed-badge\">"@ + text::decimal(n) + " known seed"@
            + "s"@ + "</span>"@,
        report::toc_badge_html(0).len() == 0,
        report::toc_badge_html(1)
            == " <span class=\"seed-badge\" title=\"known fingerprint seeds for this publisher\">"@
            + text::decimal(1) + " seed"@ + "</span>"@,
        report::toc_badge_html(n)
            == " <span class=\"seed-badge\" title=\"known fingerprint seeds for this publisher\">"@
            + text::decimal(n) + " seed"@ + "s"@ + "</span>"@,
{
    reveal_strlit("");
    assert(" <span class=\"seed-badge\">"@ + text::decimal(1) + " known seed"@ + ""@
        =~= " <span class=\"seed-badge\">"@ + text::decimal(1) + " known seed"@);
    assert(" <span class=\"seed-badge\" title=\"known fingerprint seeds for this publisher\">"@
        + text::decimal(1) + " seed"@ + ""@
        =~= " <span class=\"seed-badge\" title=\"known fingerprint seeds for this publisher\">"@
        + text::decimal(1) + " seed"@);
}

// ── Order and pages ────────────────────────────────────────────────
/// Books are sorted by the key of their publisher, those of one key by title,
/// and those of one title as they came.
pub proof fn law_books_sorted(entries: Seq<entry::AuditEntry>, i: int, j: int)
    requires
        0 <= i < entries.len(),
        0 <= j < entries.len(),
    ensures
        ({
            let a = report::sort_key_of(text::opt_text(entries[i].publisher));
            let b = report::sort_key_of(text::opt_text(entries[j].publisher));
            let (t, u) = (entries[i].title@, entries[j].title@);
            ordering::before(report::entry_keys(entries), i, j) <==> {
                ||| ordering::text_lt(a, b)
                ||| a == b && ordering::text_lt(t, u)
                ||| a == b && t == u && i < j
            }
        }),
{
    let a = report::sort_key_of(text::opt_text(entries[i].publisher));
    let b = report::sort_key_of(text::opt_text(entries[j].publisher));
    let (t, u) = (entries[i].title@, entries[j].title@);
    let keys = report::entry_keys(entries);
    let (x, y) = (keys[i].parts, keys[j].parts);
    assert(x =~= seq![a, t] && y =~= seq![b, u]);
    lemma_two_parts(a, t, b, u);
    lemma_two_parts(b, u, a, t);
    ordering::law_text_order(a, b);
    ordering::law_text_order(t, u);
}

proof fn lemma_two_parts(a: Seq<char>, t: Seq<char>, b: Seq<char>, u: Seq<char>)
    ensures
        ordering::parts_lt(seq![a, t], seq![b, u]) <==> ordering::text_lt(a, b) && a != b || (a == b
            && ordering::text_lt(t, u)),
{
    let (x, y) = (seq![a, t], seq![b, u]);
    assert(x.drop_first() =~= seq![t]);
    assert(y.drop_first() =~= seq![u]);
    assert(x.drop_first().drop_first() =~= Seq::<Seq<char>>::empty());
    assert(y.drop_first().drop_first() =~= Seq::<Seq<char>>::empty());
    reveal_with_fuel(ordering::parts_lt, 3);
    ordering::law_text_order(t, u);
    ordering::law_text_order(a, b);
}

/// There are just as many pages as the books need at fifty each, and one for
/// no books.
pub proof fn law_page_count(n: int)
    ensures
        report::page_count(0) == 1,
        n > 0 ==> 50 * (report::page_count(n) - 1) < n <= 50 * report::page_count(n),
{
}

/// Every page but the last is full, and a page has the books of its place.
pub proof fn law_page_slice(sorted: Seq<&entry::AuditEntry>, p: int, k: int)
    requires
        0 <= p < report::page_count(sorted.len() as int),
    ensures
        p + 1 < report::page_count(sorted.len() as int) ==> report::page_slice(sorted, p).len()
            == 50,
        p + 1 == report::page_count(sorted.len() as int) ==> report::page_slice(sorted, p).len()
            == sorted.len() - 50 * p,
        0 <= k < report::page_slice(sorted, p).len() ==> report::page_slice(sorted, p)[k]
            == sorted[50 * p + k],
{
}

/// The pages are those of the sorted books, all of them and in their order.
pub proof fn law_paginated(
    pages: Seq<Vec<&entry::AuditEntry>>,
    sorted: Seq<&entry::AuditEntry>,
    p: int,
)
    requires
        report::paginated(pages, sorted),
    ensures
        pages.len() == report::page_count(sorted.len() as int),
        0 <= p < pages.len() ==> pages[p]@ == report::page_slice(sorted, p),
{
}

/// A book of a real publisher stands behind none without one.
pub proof fn law_publishers_stand_first(sorted: Seq<&entry::AuditEntry>, m: int, n: int)
    requires
        report::publishers_first(sorted),
        0 <= m < n < sorted.len(),
        report::real_publisher(text::opt_text(sorted[n].publisher)),
    ensures
        report::has_publisher(text::opt_text(sorted[m].publisher)),
{
}

/// A page links to the one before and the one behind it; the first and the
/// last have only the word.
pub proof fn law_page_links(page: nat, total: nat)
    requires
        1 <= page <= total,
    ensures
        page > 1 ==> report::prev_html(page) == "<a class=\"pager\" href=\""@ + report::page_name(
            (page - 1) as nat,
        ) + "\">← prev</a>"@,
        report::prev_html(1) == "<span class=\"pager disabled\">← prev</span>"@,
        page < total ==> report::next_html(page, total) == "<a class=\"pager\" href=\""@
            + report::page_name(page + 1) + "\">next →</a>"@,
        report::next_html(total, total) == "<span class=\"pager disabled\">next →</span>"@,
{
}

/// A page has a section for each of its books, in their order.
pub proof fn law_section_for_each(
    entries: Seq<&entry::AuditEntry>,
    counts: Seq<report::SeedCount>,
    n: nat,
)
    requires
        n < entries.len(),
    ensures
        report::sections_html(entries, counts, 0) == Seq::<char>::empty(),
        report::sections_html(entries, counts, n + 1) == report::sections_html(entries, counts, n)
            + report::section_html(*entries[n as int], counts),
{
}

// ── Table of contents ──────────────────────────────────────────────
/// The table lists the books page by page, with the number of their page,
/// counted from one.
pub proof fn law_listed_by_page(pages: Seq<Vec<&entry::AuditEntry>>, n: nat, i: int)
    requires
        n < pages.len() <= usize::MAX,
        0 <= i < pages[n as int]@.len(),
    ensures
        report::toc_items(pages, 0).len() == 0,
        ({
            let before = report::toc_items(pages, n);
            let listed = report::toc_items(pages, n + 1);
            &&& listed.len() == before.len() + pages[n as int]@.len()
            &&& listed.take(before.len() as int) == before
            &&& listed[before.len() + i] == ((n + 1) as usize, pages[n as int]@[i])
        }),
{
    let before = report::toc_items(pages, n);
    let listed = report::toc_items(pages, n + 1);
    assert(listed.take(before.len() as int) =~= before);
}

/// A book stands under its publisher and under no other, in the order of the
/// list.
pub proof fn law_members(items: Seq<(usize, &entry::AuditEntry)>, key: Seq<char>, n: nat)
    requires
        n < items.len(),
    ensures
        report::item_key(items[n as int]) == report::sort_key_of(
            text::opt_text(items[n as int].1.publisher),
        ),
        report::members(items, key, 0).len() == 0,
        report::item_key(items[n as int]) == key ==> report::members(items, key, n + 1)
            == report::members(items, key, n).push(items[n as int]),
        report::item_key(items[n as int]) != key ==> report::members(items, key, n + 1)
            == report::members(items, key, n),
{
}

/// A publisher is in the corpus exactly where a book has its label.
pub proof fn law_in_corpus(items: Seq<(usize, &entry::AuditEntry)>, key: Seq<char>, i: int)
    ensures
        0 <= i < items.len() ==> report::in_corpus(
            items,
            report::display_of(text::opt_text(items[i].1.publisher)),
        ),
        report::in_corpus(items, key) ==> exists|k: int|
            0 <= k < items.len() && report::display_of(
                text::opt_text((#[trigger] items[k]).1.publisher),
            ) == key,
{
    if 0 <= i < items.len() {
        assert(report::item_label(items[i]) == report::display_of(
            text::opt_text(items[i].1.publisher),
        ));
    }
    if report::in_corpus(items, key) {
        let k = choose|k: int| 0 <= k < items.len() && report::item_label(#[trigger] items[k]) == key;
        assert(report::display_of(text::opt_text(items[k].1.publisher)) == key);
    }
}

/// Publishers without books are listed by falling number of seeds, those with
/// the same number by name.
pub proof fn law_orphans_sorted(
    counts: Seq<report::SeedCount>,
    picked: Seq<usize>,
    i: int,
    j: int,
)
    requires
        0 <= i < picked.len(),
        0 <= j < picked.len(),
        picked[i] < counts.len(),
        picked[j] < counts.len(),
    ensures
        ({
            let (a, b) = (counts[picked[i] as int], counts[picked[j] as int]);
            ordering::before(report::orphan_keys(counts, picked), i, j) <==> {
                ||| a.count > b.count
                ||| a.count == b.count && ordering::text_lt(a.publisher@, b.publisher@)
                ||| a.count == b.count && a.publisher@ == b.publisher@ && i < j
            }
        }),
{
    let (a, b) = (counts[picked[i] as int], counts[picked[j] as int]);
    let keys = report::orphan_keys(counts, picked);
    assert(keys[i].parts =~= seq![a.publisher@]);
    assert(keys[j].parts =~= seq![b.publisher@]);
    lemma_one_part(a.publisher@, b.publisher@);
    lemma_one_part(b.publisher@, a.publisher@);
    ordering::law_text_order(a.publisher@, b.publisher@);
}

proof fn lemma_one_part(a: Seq<char>, b: Seq<char>)
    ensures
        ordering::parts_lt(seq![a], seq![b]) <==> ordering::text_lt(a, b),
{
    assert(seq![a].drop_first() =~= Seq::<Seq<char>>::empty());
    assert(seq![b].drop_first() =~= Seq::<Seq<char>>::empty());
    reveal_with_fuel(ordering::parts_lt, 2);
    ordering::law_text_order(a, b);
}

/// A line of the table links to the book on its page and shows its title and
/// the page.
pub proof fn law_toc_lines(items: Seq<(usize, &entry::AuditEntry)>, n: nat)
    requires
        n < items.len(),
    ensures
        ({
            let (page, book) = items[n as int];
            let link = report::page_name(page as nat) + "#"@ + report::escaped(book.slug@);
            report::item_html(items[n as int]) == "    <li><a href=\""@ + link + "\">"@
                + report::escaped(book.title@) + "</a> <span class=\"muted\">p."@ + text::decimal(
                page as nat,
            ) + "</span></li>\n"@
        }),
        report::items_html(items, 0) == Seq::<char>::empty(),
        report::items_html(items, n + 1) == report::items_html(items, n) + report::item_html(
            items[n as int],
        ),
{
    let (page, book) = items[n as int];
    let link = report::page_name(page as nat) + "#"@ + report::escaped(book.slug@);
    assert("    <li><a href=\""@ + link =~= "    <li><a href=\""@ + report::page_name(page as nat)
        + "#"@ + report::escaped(book.slug@));
}

/// A group is headed by its publisher, the number of its books and of its
/// seeds, and lists its books.
pub proof fn law_groups(
    items: Seq<(usize, &entry::AuditEntry)>,
    keys: Seq<Seq<char>>,
    counts: Seq<report::SeedCount>,
    n: nat,
)
    requires
        items.len() > 0,
        n < keys.len(),
    ensures
        ({
            let publisher = report::display_of(text::opt_text(items[0].1.publisher));
            let noun = if items.len() == 1 { "book"@ } else { "books"@ };
            report::group_html(items, counts) == "<section class=\"pub-group\">\n  <h2>"@
                + report::escaped(publisher) + " <span class=\"count\">("@ + text::decimal(
                items.len(),
            ) + " "@ + noun + ")</span>"@ + report::toc_badge_html(
                report::count_of(counts, publisher),
            ) + "</h2>\n  <ul class=\"book-list\">\n"@ + report::items_html(items, items.len())
                + "  </ul>\n</section>\n"@
        }),
        report::groups_html(items, keys, counts, 0) == Seq::<char>::empty(),
        report::groups_html(items, keys, counts, n + 1) == report::groups_html(
            items,
            keys,
            counts,
            n,
        ) + report::group_html(report::members(items, keys[n as int], items.len()), counts),
{
    reveal(report::group_html);
}

/// The publishers without books are listed where there are any, each with the
/// number of its seeds.
pub proof fn law_orphan_lines(
    counts: Seq<report::SeedCount>,
    picked: Seq<usize>,
    order: Seq<usize>,
    items: Seq<(usize, &entry::AuditEntry)>,
    c: report::SeedCount,
    n: nat,
)
    requires
        n < order.len(),
    ensures
        c.count == 1 ==> report::orphan_html(c) == "    <li>"@ + report::escaped(c.publisher@)
            + " <span class=\"muted\">"@ + text::decimal(1) + " seed"@ + ""@ + "</span></li>\n"@,
        c.count != 1 ==> report::orphan_html(c) == "    <li>"@ + report::escaped(c.publisher@)
            + " <span class=\"muted\">"@ + text::decimal(c.count as nat) + " seed"@ + "s"@
            + "</span></li>\n"@,
        report::orphan_lines_html(counts, picked, order, 0) == Seq::<char>::empty(),
        report::orphan_lines_html(counts, picked, order, n + 1) == report::orphan_lines_html(
            counts,
            picked,
            order,
            n,
        ) + report::orphan_html(counts[picked[order[n as int] as int] as int]),
        report::orphans(counts, items, counts.len()).len() == 0 ==> report::orphans_html(
            counts,
            items,
        ).len() == 0,
        ({
            let alone = report::orphans(counts, items, counts.len());
            alone.len() > 0 ==> report::orphans_html(counts, items)
                == "<section class=\"pub-group orphans\">\n  <h2>Seeds without books in corpus <span class=\"count\">(seed publishers absent from this corpus)</span></h2>\n  <ul class=\"book-list\">\n"@
                + report::orphan_lines_html(
                counts,
                alone,
                ordering::order_of(report::orphan_keys(counts, alone)),
                alone.len(),
            ) + "  </ul>\n</section>\n"@
        }),
{
}

// ── What stands in a page ──────────────────────────────────────────
proof fn lemma_whole(s: Seq<char>)
    ensures
        text::begins_with(s, s),
{
    assert(s.subrange(0, s.len() as int) =~= s);
}

proof fn lemma_front(s: Seq<char>, a: Seq<char>, b: Seq<char>)
    requires
        text::begins_with(s, a + b),
    ensures
        text::begins_with(s, a),
{
    assert(s.subrange(0, a.len() as int) =~= (a + b).subrange(0, a.len() as int));
    assert((a + b).subrange(0, a.len() as int) =~= a);
}

proof fn lemma_regroup(a: Seq<char>, b: Seq<char>, c: Seq<char>)
    ensures
        a + b + c == a + (b + c),
{
    assert(a + b + c =~= a + (b + c));
}

proof fn lemma_held(s: Seq<char>, a: Seq<char>, b: Seq<char>)
    requires
        text::begins_with(s, a + b),
    ensures
        text::holds_text(s, b),
{
    let n = a.len() as int;
    assert(s.subrange(n, n + b.len()) =~= s.subrange(0, n + b.len()).skip(n));
    assert((a + b).skip(n) =~= b);
    assert(text::stands_at(s, b, n));
}

/// The section of a book is found by its slug and shows what is known of it,
/// each under its own heading; the front half has what belongs to the front,
/// and the end half what belongs to the end.
pub proof fn law_section_shows_the_book(e: entry::AuditEntry, counts: Seq<report::SeedCount>)
    ensures
        ({
            let html = report::section_html(e, counts);
            &&& text::holds_text(
                html,
                "<section class=\"book\" id=\""@
                    + report::escaped(e.slug@)
                    + "\" data-slug=\""@
                    + report::escaped(e.slug@)
                    + "\" data-rating=\"\">\n  <h2>"@,
            )
            &&& text::holds_text(
                html,
                "\" data-rating=\"\">\n  <h2>"@
                    + report::escaped(e.title@)
                    + "</h2>\n  <div class=\"src\"><code>"@,
            )
            &&& text::holds_text(
                html,
                "</h2>\n  <div class=\"src\"><code>"@
                    + report::escaped(e.source_path@)
                    + "</code></div>\n  <div class=\"row\">\n    <div class=\"cell\">\n      <div class=\"label\">Detection method</div>\n      <div>"@,
            )
            &&& text::holds_text(
                html,
                "</code></div>\n  <div class=\"row\">\n    <div class=\"cell\">\n      <div class=\"label\">Detection method</div>\n      <div>"@
                    + report::method_html(e.detection)
                    + "</div>\n    </div>\n    <div class=\"cell\">\n      <div class=\"label\">Trigger</div>\n      <div>"@,
            )
            &&& text::holds_text(
                html,
                "</div>\n    </div>\n    <div class=\"cell\">\n      <div class=\"label\">Trigger</div>\n      <div>"@
                    + report::trigger_html(e.detection)
                    + "</div>\n    </div>\n    <div class=\"cell\">\n      <div class=\"label\">Duration</div>\n      <div>"@,
            )
            &&& text::holds_text(
                html,
                "</div>\n    </div>\n    <div class=\"cell\">\n      <div class=\"label\">Duration</div>\n      <div>"@
                    + report::ms_text(Some(e.duration_ms))
                    + "</div>\n    </div>\n  </div>\n  <div class=\"row\">\n    <div class=\"cell\">\n      <div class=\"label\">Publisher</div>\n      <div>"@,
            )
            &&& text::holds_text(
                html,
                "</div>\n    </div>\n  </div>\n  <div class=\"row\">\n    <div class=\"cell\">\n      <div class=\"label\">Publisher</div>\n      <div>"@
                    + report::escaped(report::text_or(e.publisher, "—"@))
                    + report::chip_html(report::count_of(counts, report::display_of(text::opt_text(e.publisher))))
                    + "</div>\n    </div>\n    <div class=\"cell\">\n      <div class=\"label\">Copyright</div>\n      <div>"@,
            )
            &&& text::holds_text(
                html,
                "</div>\n    </div>\n    <div class=\"cell\">\n      <div class=\"label\">Copyright</div>\n      <div>"@
                    + report::escaped(report::text_or(e.copyright, "—"@))
                    + "</div>\n    </div>\n  </div>\n  <div class=\"cuts\">\n    <div class=\"cut-half\">\n      <h3>Front · cut @ "@,
            )
            &&& text::holds_text(
                html,
                "</div>\n    </div>\n  </div>\n  <div class=\"cuts\">\n    <div class=\"cut-half\">\n      <h3>Front · cut @ "@
                    + report::ms_text(report::front_cut(e.detection))
                    + "</h3>\n      <div class=\"wave\">"@
                    + e.front_waveform_svg@
                    + "</div>\n      <audio controls preload=\"none\" src=\""@
                    + report::escaped(e.front_clip_rel@)
                    + "\"></audio>\n      "@
                    + report::detail_html(e.front_detail)
                    + "\n    </div>\n    <div class=\"cut-half\">\n      <h3>End · cut @ "@,
            )
            &&& text::holds_text(
                html,
                "\n    </div>\n    <div class=\"cut-half\">\n      <h3>End · cut @ "@
                    + report::ms_text(report::end_cut(e.detection))
                    + "</h3>\n      <div class=\"wave\">"@
                    + e.end_waveform_svg@
                    + "</div>\n      <audio controls preload=\"none\" src=\""@
                    + report::escaped(e.end_clip_rel@)
                    + "\"></audio>\n      "@
                    + report::detail_html(e.end_detail)
                    + "\n    </div>\n  </div>\n  <div class=\"rating\">\n    <label><input type=\"radio\" name=\"rating-"@,
            )
            &&& text::holds_text(
                html,
                "\n    </div>\n  </div>\n  <div class=\"rating\">\n    <label><input type=\"radio\" name=\"rating-"@
                    + report::escaped(e.slug@)
                    + "\" value=\"good\"> Good</label>\n    <label><input type=\"radio\" name=\"rating-"@
                    + report::escaped(e.slug@)
                    + "\" value=\"improve\"> Improve</label>\n    <label><input type=\"radio\" name=\"rating-"@
                    + report::escaped(e.slug@)
                    + "\" value=\"bad\"> Bad</label>\n    <span class=\"save-state\" data-state=\"unsaved\">unsaved</span>\n  </div>\n  <div class=\"comment\">\n    <textarea placeholder=\"Notes for this book (visible in exported report)…\"></textarea>\n  </div>\n</section>\n"@,
            )
        }),
{
    reveal(report::section_html);
    let html = report::section_html(e, counts);
    let t0 = "<section class=\"book\" id=\""@;
    let t1 = report::escaped(e.slug@);
    let t2 = "\" data-slug=\""@;
    let t3 = report::escaped(e.slug@);
    let t4 = "\" data-rating=\"\">\n  <h2>"@;
    let t5 = report::escaped(e.title@);
    let t6 = "</h2>\n  <div class=\"src\"><code>"@;
    let t7 = report::escaped(e.source_path@);
    let t8 = "</code></div>\n  <div class=\"row\">\n    <div class=\"cell\">\n      <div class=\"label\">Detection method</div>\n      <div>"@;
    let t9 = report::method_html(e.detection);
    let t10 = "</div>\n    </div>\n    <div class=\"cell\">\n      <div class=\"label\">Trigger</div>\n      <div>"@;
    let t11 = report::trigger_html(e.detection);
    let t12 = "</div>\n    </div>\n    <div class=\"cell\">\n      <div class=\"label\">Duration</div>\n      <div>"@;
    let t13 = report::ms_text(Some(e.duration_ms));
    let t14 = "</div>\n    </div>\n  </div>\n  <div class=\"row\">\n    <div class=\"cell\">\n      <div class=\"label\">Publisher</div>\n      <div>"@;
    let t15 = report::escaped(report::text_or(e.publisher, "—"@));
    let t16 = report::chip_html(report::count_of(counts, report::display_of(text::opt_text(e.publisher))));
    let t17 = "</div>\n    </div>\n    <div class=\"cell\">\n      <div class=\"label\">Copyright</div>\n      <div>"@;
    let t18 = report::escaped(report::text_or(e.copyright, "—"@));
    let t19 = "</div>\n    </div>\n  </div>\n  <div class=\"cuts\">\n    <div class=\"cut-half\">\n      <h3>Front · cut @ "@;
    let t20 = report::ms_text(report::front_cut(e.detection));
    let t21 = "</h3>\n      <div class=\"wave\">"@;
    let t22 = e.front_waveform_svg@;
    let t23 = "</div>\n      <audio controls preload=\"none\" src=\""@;
    let t24 = report::escaped(e.front_clip_rel@);
    let t25 = "\"></audio>\n      "@;
    let t26 = report::detail_html(e.front_detail);
    let t27 = "\n    </div>\n    <div class=\"cut-half\">\n      <h3>End · cut @ "@;
    let t28 = report::ms_text(report::end_cut(e.detection));
    let t29 = "</h3>\n      <div class=\"wave\">"@;
    let t30 = e.end_waveform_svg@;
    let t31 = "</div>\n      <audio controls preload=\"none\" src=\""@;
    let t32 = report::escaped(e.end_clip_rel@);
    let t33 = "\"></audio>\n      "@;
    let t34 = report::detail_html(e.end_detail);
    let t35 = "\n    </div>\n  </div>\n  <div class=\"rating\">\n    <label><input type=\"radio\" name=\"rating-"@;
    let t36 = report::escaped(e.slug@);
    let t37 = "\" value=\"good\"> Good</label>\n    <label><input type=\"radio\" name=\"rating-"@;
    let t38 = report::escaped(e.slug@);
    let t39 = "\" value=\"improve\"> Improve</label>\n    <label><input type=\"radio\" name=\"rating-"@;
    let t40 = report::escaped(e.slug@);
    let t41 = "\" value=\"bad\"> Bad</label>\n    <span class=\"save-state\" data-state=\"unsaved\">unsaved</span>\n  </div>\n  <div class=\"comment\">\n    <textarea placeholder=\"Notes for this book (visible in exported report)…\"></textarea>\n  </div>\n</section>\n"@;
    let s0 = t0;
    let s1 = s0 + t1;
    let s2 = s1 + t2;
    let s3 = s2 + t3;
    let s4 = s3 + t4;
    let s5 = s4 + t5;
    let s6 = s5 + t6;
    let s7 = s6 + t7;
    let s8 = s7 + t8;
    let s9 = s8 + t9;
    let s10 = s9 + t10;
    let s11 = s10 + t11;
    let s12 = s11 + t12;
    let s13 = s12 + t13;
    let s14 = s13 + t14;
    let s15 = s14 + t15;
    let s16 = s15 + t16;
    let s17 = s16 + t17;
    let s18 = s17 + t18;
    let s19 = s18 + t19;
    let s20 = s19 + t20;
    let s21 = s20 + t21;
    let s22 = s21 + t22;
    let s23 = s22 + t23;
    let s24 = s23 + t24;
    let s25 = s24 + t25;
    let s26 = s25 + t26;
    let s27 = s26 + t27;
    let s28 = s27 + t28;
    let s29 = s28 + t29;
    let s30 = s29 + t30;
    let s31 = s30 + t31;
    let s32 = s31 + t32;
    let s33 = s32 + t33;
    let s34 = s33 + t34;
    let s35 = s34 + t35;
    let s36 = s35 + t36;
    let s37 = s36 + t37;
    let s38 = s37 + t38;
    let s39 = s38 + t39;
    let s40 = s39 + t40;
    let s41 = s40 + t41;
    lemma_whole(html);
    lemma_front(html, s40, t41);
    lemma_front(html, s39, t40);
    lemma_front(html, s38, t39);
    lemma_front(html, s37, t38);
    lemma_front(html, s36, t37);
    lemma_front(html, s35, t36);
    lemma_front(html, s34, t35);
    lemma_front(html, s33, t34);
    lemma_front(html, s32, t33);
    lemma_front(html, s31, t32);
    lemma_front(html, s30, t31);
    lemma_front(html, s29, t30);
    lemma_front(html, s28, t29);
    lemma_front(html, s27, t28);
    lemma_front(html, s26, t27);
    lemma_front(html, s25, t26);
    lemma_front(html, s24, t25);
    lemma_front(html, s23, t24);
    lemma_front(html, s22, t23);
    lemma_front(html, s21, t22);
    lemma_front(html, s20, t21);
    lemma_front(html, s19, t20);
    lemma_front(html, s18, t19);
    lemma_front(html, s17, t18);
    lemma_front(html, s16, t17);
    lemma_front(html, s15, t16);
    lemma_front(html, s14, t15);
    lemma_front(html, s13, t14);
    lemma_front(html, s12, t13);
    lemma_front(html, s11, t12);
    lemma_front(html, s10, t11);
    lemma_front(html, s9, t10);
    lemma_front(html, s8, t9);
    lemma_front(html, s7, t8);
    lemma_front(html, s6, t7);
    lemma_front(html, s5, t6);
    lemma_front(html, s4, t5);
    lemma_front(html, s3, t4);
    lemma_front(html, s2, t3);
    lemma_front(html, s1, t2);
    lemma_front(html, s0, t1);
    assert(text::stands_at(html, s4, 0));
    lemma_regroup(s3, t4, t5);
    lemma_regroup(s3, t4 + t5, t6);
    lemma_held(html, s3, t4 + t5 + t6);
    lemma_regroup(s5, t6, t7);
    lemma_regroup(s5, t6 + t7, t8);
    lemma_held(html, s5, t6 + t7 + t8);
    lemma_regroup(s7, t8, t9);
    lemma_regroup(s7, t8 + t9, t10);
    lemma_held(html, s7, t8 + t9 + t10);
    lemma_regroup(s9, t10, t11);
    lemma_regroup(s9, t10 + t11, t12);
    lemma_held(html, s9, t10 + t11 + t12);
    lemma_regroup(s11, t12, t13);
    lemma_regroup(s11, t12 + t13, t14);
    lemma_held(html, s11, t12 + t13 + t14);
    lemma_regroup(s13, t14, t15);
    lemma_regroup(s13, t14 + t15, t16);
    lemma_regroup(s13, t14 + t15 + t16, t17);
    lemma_held(html, s13, t14 + t15 + t16 + t17);
    lemma_regroup(s16, t17, t18);
    lemma_regroup(s16, t17 + t18, t19);
    lemma_held(html, s16, t17 + t18 + t19);
    lemma_regroup(s18, t19, t20);
    lemma_regroup(s18, t19 + t20, t21);
    lemma_regroup(s18, t19 + t20 + t21, t22);
    lemma_regroup(s18, t19 + t20 + t21 + t22, t23);
    lemma_regroup(s18, t19 + t20 + t21 + t22 + t23, t24);
    lemma_regroup(s18, t19 + t20 + t21 + t22 + t23 + t24, t25);
    lemma_regroup(s18, t19 + t20 + t21 + t22 + t23 + t24 + t25, t26);
    lemma_regroup(s18, t19 + t20 + t21 + t22 + t23 + t24 + t25 + t26, t27);
    lemma_held(html, s18, t19 + t20 + t21 + t22 + t23 + t24 + t25 + t26 + t27);
    lemma_regroup(s26, t27, t28);
    lemma_regroup(s26, t27 + t28, t29);
    lemma_regroup(s26, t27 + t28 + t29, t30);
    lemma_regroup(s26, t27 + t28 + t29 + t30, t31);
    lemma_regroup(s26, t27 + t28 + t29 + t30 + t31, t32);
    lemma_regroup(s26, t27 + t28 + t29 + t30 + t31 + t32, t33);
    lemma_regroup(s26, t27 + t28 + t29 + t30 + t31 + t32 + t33, t34);
    lemma_regroup(s26, t27 + t28 + t29 + t30 + t31 + t32 + t33 + t34, t35);
    lemma_held(html, s26, t27 + t28 + t29 + t30 + t31 + t32 + t33 + t34 + t35);
    lemma_regroup(s34, t35, t36);
    lemma_regroup(s34, t35 + t36, t37);
    lemma_regroup(s34, t35 + t36 + t37, t38);
    lemma_regroup(s34, t35 + t36 + t37 + t38, t39);
    lemma_regroup(s34, t35 + t36 + t37 + t38 + t39, t40);
    lemma_regroup(s34, t35 + t36 + t37 + t38 + t39 + t40, t41);
    lemma_held(html, s34, t35 + t36 + t37 + t38 + t39 + t40 + t41);
}

/// A page tells which it is of how many, names the corpus, links to its
/// neighbours and holds the sections of its books.
pub proof fn law_page_shows_its_books(
    corpus: Seq<char>,
    entries: Seq<&entry::AuditEntry>,
    page_num: nat,
    total_pages: nat,
    counts: Seq<report::SeedCount>,
)
    ensures
        ({
            let html = report::page_html(corpus, entries, page_num, total_pages, counts);
            &&& text::holds_text(
                html,
                "\n<title>Audiologo audit — page "@
                    + text::decimal(page_num)
                    + "/"@
                    + text::decimal(total_pages)
                    + "</title>\n</head>\n<body>\n<header>\n  <h1>Audiologo audit · page "@,
            )
            &&& text::holds_text(
                html,
                "</title>\n</head>\n<body>\n<header>\n  <h1>Audiologo audit · page "@
                    + text::decimal(page_num)
                    + "/"@
                    + text::decimal(total_pages)
                    + "</h1>\n  <div class=\"meta\">\n    <span>Corpus: <code>"@,
            )
            &&& text::holds_text(
                html,
                "</h1>\n  <div class=\"meta\">\n    <span>Corpus: <code>"@
                    + report::escaped(corpus)
                    + "</code></span>\n    <span id=\"progress\" class=\"progress\"></span>\n  </div>\n  <div class=\"toolbar\">\n    <a class=\"pager\" href=\"index.html\">↑ TOC</a>\n    "@,
            )
            &&& text::holds_text(
                html,
                "</code></span>\n    <span id=\"progress\" class=\"progress\"></span>\n  </div>\n  <div class=\"toolbar\">\n    <a class=\"pager\" href=\"index.html\">↑ TOC</a>\n    "@
                    + report::prev_html(page_num)
                    + "\n    "@
                    + report::next_html(page_num, total_pages)
                    + "\n    <label>Filter:\n      <select id=\"filter\">\n        <option value=\"all\">All</option>\n        <option value=\"unreviewed\">Unreviewed</option>\n        <option value=\"good\">Good</option>\n        <option value=\"improve\">Improve</option>\n        <option value=\"bad\">Bad</option>\n      </select>\n    </label>\n    <button type=\"button\" id=\"export\">Export Report</button>\n  </div>\n</header>\n<main>\n"@,
            )
            &&& text::holds_text(
                html,
                "\n    <label>Filter:\n      <select id=\"filter\">\n        <option value=\"all\">All</option>\n        <option value=\"unreviewed\">Unreviewed</option>\n        <option value=\"good\">Good</option>\n        <option value=\"improve\">Improve</option>\n        <option value=\"bad\">Bad</option>\n      </select>\n    </label>\n    <button type=\"button\" id=\"export\">Export Report</button>\n  </div>\n</header>\n<main>\n"@
                    + report::sections_html(entries, counts, entries.len())
                    + "\n</main>\n"@
                    + report::PAGE_SCRIPTS@
                    + "\n</body>\n</html>"@,
            )
        }),
{
    let html = report::page_html(corpus, entries, page_num, total_pages, counts);
    let t0 = "<!DOCTYPE html>\n<html lang=\"en\">\n<head>\n"@;
    let t1 = report::PAGE_HEAD@;
    let t2 = "\n<title>Audiologo audit — page "@;
    let t3 = text::decimal(page_num);
    let t4 = "/"@;
    let t5 = text::decimal(total_pages);
    let t6 = "</title>\n</head>\n<body>\n<header>\n  <h1>Audiologo audit · page "@;
    let t7 = text::decimal(page_num);
    let t8 = "/"@;
    let t9 = text::decimal(total_pages);
    let t10 = "</h1>\n  <div class=\"meta\">\n    <span>Corpus: <code>"@;
    let t11 = report::escaped(corpus);
    let t12 = "</code></span>\n    <span id=\"progress\" class=\"progress\"></span>\n  </div>\n  <div class=\"toolbar\">\n    <a class=\"pager\" href=\"index.html\">↑ TOC</a>\n    "@;
    let t13 = report::prev_html(page_num);
    let t14 = "\n    "@;
    let t15 = report::next_html(page_num, total_pages);
    let t16 = "\n    <label>Filter:\n      <select id=\"filter\">\n        <option value=\"all\">All</option>\n        <option value=\"unreviewed\">Unreviewed</option>\n        <option value=\"good\">Good</option>\n        <option value=\"improve\">Improve</option>\n        <option value=\"bad\">Bad</option>\n      </select>\n    </label>\n    <button type=\"button\" id=\"export\">Export Report</button>\n  </div>\n</header>\n<main>\n"@;
    let t17 = report::sections_html(entries, counts, entries.len());
    let t18 = "\n</main>\n"@;
    let t19 = report::PAGE_SCRIPTS@;
    let t20 = "\n</body>\n</html>"@;
    let s0 = t0;
    let s1 = s0 + t1;
    let s2 = s1 + t2;
    let s3 = s2 + t3;
    let s4 = s3 + t4;
    let s5 = s4 + t5;
    let s6 = s5 + t6;
    let s7 = s6 + t7;
    let s8 = s7 + t8;
    let s9 = s8 + t9;
    let s10 = s9 + t10;
    let s11 = s10 + t11;
    let s12 = s11 + t12;
    let s13 = s12 + t13;
    let s14 = s13 + t14;
    let s15 = s14 + t15;
    let s16 = s15 + t16;
    let s17 = s16 + t17;
    let s18 = s17 + t18;
    let s19 = s18 + t19;
    let s20 = s19 + t20;
    lemma_whole(html);
    lemma_front(html, s19, t20);
    lemma_front(html, s18, t19);
    lemma_front(html, s17, t18);
    lemma_front(html, s16, t17);
    lemma_front(html, s15, t16);
    lemma_front(html, s14, t15);
    lemma_front(html, s13, t14);
    lemma_front(html, s12, t13);
    lemma_front(html, s11, t12);
    lemma_front(html, s10, t11);
    lemma_front(html, s9, t10);
    lemma_front(html, s8, t9);
    lemma_front(html, s7, t8);
    lemma_front(html, s6, t7);
    lemma_front(html, s5, t6);
    lemma_front(html, s4, t5);
    lemma_front(html, s3, t4);
    lemma_front(html, s2, t3);
    lemma_regroup(s1, t2, t3);
    lemma_regroup(s1, t2 + t3, t4);
    lemma_regroup(s1, t2 + t3 + t4, t5);
    lemma_regroup(s1, t2 + t3 + t4 + t5, t6);
    lemma_held(html, s1, t2 + t3 + t4 + t5 + t6);
    lemma_regroup(s5, t6, t7);
    lemma_regroup(s5, t6 + t7, t8);
    lemma_regroup(s5, t6 + t7 + t8, t9);
    lemma_regroup(s5, t6 + t7 + t8 + t9, t10);
    lemma_held(html, s5, t6 + t7 + t8 + t9 + t10);
    lemma_regroup(s9, t10, t11);
    lemma_regroup(s9, t10 + t11, t12);
    lemma_held(html, s9, t10 + t11 + t12);
    lemma_regroup(s11, t12, t13);
    lemma_regroup(s11, t12 + t13, t14);
    lemma_regroup(s11, t12 + t13 + t14, t15);
    lemma_regroup(s11, t12 + t13 + t14 + t15, t16);
    lemma_held(html, s11, t12 + t13 + t14 + t15 + t16);
    lemma_regroup(s15, t16, t17);
    lemma_regroup(s15, t16 + t17, t18);
    lemma_regroup(s15, t16 + t17 + t18, t19);
    lemma_regroup(s15, t16 + t17 + t18 + t19, t20);
    lemma_held(html, s15, t16 + t17 + t18 + t19 + t20);
}

/// The table of contents names the corpus, counts its books, pages, publishers
/// with seeds and seeds, and holds the group of every publisher and then the
/// publishers without books.
pub proof fn law_toc_shows_the_corpus(
    corpus: Seq<char>,
    pages: Seq<Vec<&entry::AuditEntry>>,
    total_books: nat,
    counts: Seq<report::SeedCount>,
)
    ensures
        ({
            let html = report::toc_html(corpus, pages, total_books, counts);
            let items = report::toc_items(pages, pages.len());
            let keys = report::toc_keys(items, items.len());
            &&& text::holds_text(
                html,
                "\n<title>Audiologo audit — "@
                    + report::escaped(corpus)
                    + "</title>\n</head>\n<body>\n<header>\n  <h1>Audiologo audit · TOC</h1>\n  <div class=\"meta\">\n    <span>Corpus: <code>"@,
            )
            &&& text::holds_text(
                html,
                "</title>\n</head>\n<body>\n<header>\n  <h1>Audiologo audit · TOC</h1>\n  <div class=\"meta\">\n    <span>Corpus: <code>"@
                    + report::escaped(corpus)
                    + "</code></span>\n    <span>"@,
            )
            &&& text::holds_text(
                html,
                "</code></span>\n    <span>"@
                    + text::decimal(total_books)
                    + " books · "@
                    + text::decimal(pages.len())
                    + " pages · "@
                    + text::decimal(50)
                    + "/page</span>\n    <span>"@,
            )
            &&& text::holds_text(
                html,
                "/page</span>\n    <span>"@
                    + text::decimal(counts.len())
                    + " seed publishers · "@
                    + text::decimal(report::total_of(counts, counts.len()))
                    + " fingerprints</span>\n  </div>\n</header>\n<main class=\"toc\">\n"@,
            )
            &&& text::holds_text(
                html,
                " fingerprints</span>\n  </div>\n</header>\n<main class=\"toc\">\n"@
                    + report::groups_html(items, keys, counts, keys.len())
                    + report::orphans_html(counts, items)
                    + "\n</main>\n</body>\n</html>"@,
            )
        }),
{
    let items = report::toc_items(pages, pages.len());
    let keys = report::toc_keys(items, items.len());
    let html = report::toc_html(corpus, pages, total_books, counts);
    let t0 = "<!DOCTYPE html>\n<html lang=\"en\">\n<head>\n"@;
    let t1 = report::TOC_HEAD@;
    let t2 = "\n<title>Audiologo audit — "@;
    let t3 = report::escaped(corpus);
    let t4 = "</title>\n</head>\n<body>\n<header>\n  <h1>Audiologo audit · TOC</h1>\n  <div class=\"meta\">\n    <span>Corpus: <code>"@;
    let t5 = report::escaped(corpus);
    let t6 = "</code></span>\n    <span>"@;
    let t7 = text::decimal(total_books);
    let t8 = " books · "@;
    let t9 = text::decimal(pages.len());
    let t10 = " pages · "@;
    let t11 = text::decimal(report::PAGE_SIZE as nat);
    let t12 = "/page</span>\n    <span>"@;
    let t13 = text::decimal(counts.len());
    let t14 = " seed publishers · "@;
    let t15 = text::decimal(report::total_of(counts, counts.len()));
    let t16 = " fingerprints</span>\n  </div>\n</header>\n<main class=\"toc\">\n"@;
    let t17 = report::groups_html(items, keys, counts, keys.len());
    let t18 = report::orphans_html(counts, items);
    let t19 = "\n</main>\n</body>\n</html>"@;
    let s0 = t0;
    let s1 = s0 + t1;
    let s2 = s1 + t2;
    let s3 = s2 + t3;
    let s4 = s3 + t4;
    let s5 = s4 + t5;
    let s6 = s5 + t6;
    let s7 = s6 + t7;
    let s8 = s7 + t8;
    let s9 = s8 + t9;
    let s10 = s9 + t10;
    let s11 = s10 + t11;
    let s12 = s11 + t12;
    let s13 = s12 + t13;
    let s14 = s13 + t14;
    let s15 = s14 + t15;
    let s16 = s15 + t16;
    let s17 = s16 + t17;
    let s18 = s17 + t18;
    let s19 = s18 + t19;
    lemma_whole(html);
    lemma_front(html, s18, t19);
    lemma_front(html, s17, t18);
    lemma_front(html, s16, t17);
    lemma_front(html, s15, t16);
    lemma_front(html, s14, t15);
    lemma_front(html, s13, t14);
    lemma_front(html, s12, t13);
    lemma_front(html, s11, t12);
    lemma_front(html, s10, t11);
    lemma_front(html, s9, t10);
    lemma_front(html, s8, t9);
    lemma_front(html, s7, t8);
    lemma_front(html, s6, t7);
    lemma_front(html, s5, t6);
    lemma_front(html, s4, t5);
    lemma_front(html, s3, t4);
    lemma_front(html, s2, t3);
    lemma_regroup(s1, t2, t3);
    lemma_regroup(s1, t2 + t3, t4);
    lemma_held(html, s1, t2 + t3 + t4);
    lemma_regroup(s3, t4, t5);
    lemma_regroup(s3, t4 + t5, t6);
    lemma_held(html, s3, t4 + t5 + t6);
    lemma_regroup(s5, t6, t7);
    lemma_regroup(s5, t6 + t7, t8);
    lemma_regroup(s5, t6 + t7 + t8, t9);
    lemma_regroup(s5, t6 + t7 + t8 + t9, t10);
    lemma_regroup(s5, t6 + t7 + t8 + t9 + t10, t11);
    lemma_regroup(s5, t6 + t7 + t8 + t9 + t10 + t11, t12);
    lemma_held(html, s5, t6 + t7 + t8 + t9 + t10 + t11 + t12);
    lemma_regroup(s11, t12, t13);
    lemma_regroup(s11, t12 + t13, t14);
    lemma_regroup(s11, t12 + t13 + t14, t15);
    lemma_regroup(s11, t12 + t13 + t14 + t15, t16);
    lemma_held(html, s11, t12 + t13 + t14 + t15 + t16);
    lemma_regroup(s15, t16, t17);
    lemma_regroup(s15, t16 + t17, t18);
    lemma_regroup(s15, t16 + t17 + t18, t19);
    lemma_held(html, s15, t16 + t17 + t18 + t19);
}

} // verus!
