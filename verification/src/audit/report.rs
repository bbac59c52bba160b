//! HTML report of the audit: pages of 50 books and a table of contents.
//!
//! Books are sorted by publisher, those without one last, then by title.

use crate::audit::entry;
use crate::audit::seed;
use crate::ordering;
use crate::text;
use vstd::prelude::*;

verus! {

/// Books for each page.
pub const PAGE_SIZE: usize = 50;

/// Sort key of the books without a publisher.
pub const NO_PUBLISHER_SORT_KEY: &'static str = "\u{10FFFF}\u{10FFFF}\u{10FFFF}";

/// Label of the books without a publisher.
pub const NO_PUBLISHER_DISPLAY: &'static str = "(no publisher)";

/// Style of a book page.
pub const PAGE_HEAD: &'static str = r##"<meta charset="utf-8">
<meta name="viewport" content="width=device-width, initial-scale=1">
<style>
:root {
  color-scheme: light dark;
  --bg: #ffffff;
  --fg: #1f2937;
  --muted: #6b7280;
  --accent: #2563eb;
  --good: #16a34a;
  --improve: #f59e0b;
  --bad: #dc2626;
  --card-bg: #f9fafb;
}
@media (prefers-color-scheme: dark) {
  :root {
    --bg: #0f172a;
    --fg: #e5e7eb;
    --muted: #94a3b8;
    --card-bg: #1e293b;
  }
}
body {
  font-family: -apple-system, system-ui, sans-serif;
  background: var(--bg);
  color: var(--fg);
  margin: 0;
  padding: 0;
}
header {
  position: sticky;
  top: 0;
  background: var(--bg);
  border-bottom: 1px solid var(--muted);
  padding: 16px 24px;
  z-index: 10;
}
header h1 {
  margin: 0 0 6px;
  font-size: 1.4rem;
}
.meta {
  display: flex;
  gap: 18px;
  font-size: 0.9rem;
  color: var(--muted);
  flex-wrap: wrap;
}
.toolbar {
  margin-top: 12px;
  display: flex;
  gap: 16px;
  align-items: center;
  flex-wrap: wrap;
}
.toolbar button {
  background: var(--accent);
  color: white;
  border: 0;
  padding: 6px 14px;
  border-radius: 4px;
  font-size: 0.9rem;
  cursor: pointer;
}
.pager {
  font-size: 0.9rem;
  color: var(--accent);
  text-decoration: none;
  padding: 4px 8px;
  border-radius: 4px;
  border: 1px solid var(--muted);
}
.pager:hover { background: var(--card-bg); }
.pager.disabled { color: var(--muted); border-color: var(--muted); opacity: 0.5; }
main {
  padding: 24px;
  display: flex;
  flex-direction: column;
  gap: 32px;
}
.book {
  background: var(--card-bg);
  border-radius: 8px;
  padding: 20px;
  border: 1px solid transparent;
  scroll-margin-top: 120px;
}
.book[data-rating="good"] { border-color: var(--good); }
.book[data-rating="improve"] { border-color: var(--improve); }
.book[data-rating="bad"] { border-color: var(--bad); }
.book h2 { margin: 0 0 4px; font-size: 1.1rem; }
.src code {
  font-size: 0.8rem;
  color: var(--muted);
}
.row { display: flex; gap: 18px; margin: 14px 0; flex-wrap: wrap; }
.cell { flex: 1; min-width: 200px; }
.label {
  font-size: 0.75rem;
  text-transform: uppercase;
  letter-spacing: 0.04em;
  color: var(--muted);
  margin-bottom: 4px;
}
.badge {
  display: inline-block;
  padding: 2px 8px;
  border-radius: 3px;
  font-size: 0.85rem;
  font-family: monospace;
}
.badge.stub { background: #fef3c7; color: #92400e; }
.badge.none { background: #e0e7ff; color: #3730a3; }
.badge.detected { background: #dcfce7; color: #166534; }
.badge.seed-match { background: #ede9fe; color: #5b21b6; }
.detail-clip {
  margin-top: 14px;
  padding: 12px;
  border-radius: 6px;
  background: rgba(91, 33, 182, 0.07);
  border-left: 3px solid #5b21b6;
}
.detail-clip h4 {
  margin: 0 0 8px;
  font-size: 0.85rem;
  font-weight: 600;
  color: #5b21b6;
}
@media (prefers-color-scheme: dark) {
  .detail-clip {
    background: rgba(167, 139, 250, 0.1);
    border-left-color: #a78bfa;
  }
  .detail-clip h4 { color: #c4b5fd; }
}
.seed-badge {
  display: inline-block;
  margin-left: 8px;
  padding: 1px 6px;
  border-radius: 3px;
  font-size: 0.75rem;
  font-family: monospace;
  background: #ddd6fe;
  color: #5b21b6;
}
.cuts { display: flex; gap: 18px; margin: 18px 0 14px; flex-wrap: wrap; }
.cut-half { flex: 1; min-width: 360px; }
.cut-half h3 { font-size: 0.9rem; font-weight: 600; margin: 0 0 8px; }
.wave { background: #f5f7fa; border-radius: 4px; overflow: hidden; }
.wave svg { display: block; }
audio { width: 100%; margin-top: 6px; }
.rating { display: flex; gap: 18px; align-items: center; margin-bottom: 10px; }
.rating label { font-size: 0.95rem; cursor: pointer; }
.save-state {
  font-size: 0.8rem;
  margin-left: auto;
  color: var(--muted);
}
.save-state[data-state="saved"] { color: var(--good); }
.comment textarea {
  width: 100%;
  min-height: 60px;
  font-family: inherit;
  font-size: 0.9rem;
  padding: 8px;
  border: 1px solid var(--muted);
  border-radius: 4px;
  background: var(--bg);
  color: var(--fg);
  box-sizing: border-box;
}
.progress { font-variant-numeric: tabular-nums; }
.hidden { display: none !important; }
</style>"##;

/// Style of the table of contents.
pub const TOC_HEAD: &'static str = r##"<meta charset="utf-8">
<meta name="viewport" content="width=device-width, initial-scale=1">
<style>
:root {
  color-scheme: light dark;
  --bg: #ffffff;
  --fg: #1f2937;
  --muted: #6b7280;
  --accent: #2563eb;
  --card-bg: #f9fafb;
}
@media (prefers-color-scheme: dark) {
  :root {
    --bg: #0f172a;
    --fg: #e5e7eb;
    --muted: #94a3b8;
    --card-bg: #1e293b;
  }
}
body {
  font-family: -apple-system, system-ui, sans-serif;
  background: var(--bg);
  color: var(--fg);
  margin: 0;
  padding: 0;
}
header {
  background: var(--bg);
  border-bottom: 1px solid var(--muted);
  padding: 16px 24px;
}
header h1 { margin: 0 0 6px; font-size: 1.4rem; }
.meta {
  display: flex;
  gap: 18px;
  font-size: 0.9rem;
  color: var(--muted);
  flex-wrap: wrap;
}
main.toc {
  padding: 24px;
  display: flex;
  flex-direction: column;
  gap: 24px;
}
.pub-group {
  background: var(--card-bg);
  border-radius: 8px;
  padding: 16px 20px;
}
.pub-group h2 {
  margin: 0 0 8px;
  font-size: 1.05rem;
}
.pub-group .count {
  color: var(--muted);
  font-weight: normal;
  font-size: 0.85rem;
}
.book-list {
  margin: 0;
  padding: 0;
  list-style: none;
  display: grid;
  grid-template-columns: repeat(auto-fill, minmax(360px, 1fr));
  gap: 4px 18px;
}
.book-list li {
  font-size: 0.92rem;
  display: flex;
  justify-content: space-between;
  gap: 8px;
  padding: 2px 0;
  border-bottom: 1px dotted transparent;
}
.book-list li:hover { border-bottom-color: var(--muted); }
.book-list a {
  color: var(--fg);
  text-decoration: none;
  flex: 1;
  overflow: hidden;
  text-overflow: ellipsis;
  white-space: nowrap;
}
.book-list a:hover { color: var(--accent); }
.muted { color: var(--muted); font-size: 0.8rem; font-variant-numeric: tabular-nums; }
.seed-badge {
  display: inline-block;
  margin-left: 8px;
  padding: 1px 6px;
  border-radius: 3px;
  font-size: 0.75rem;
  font-family: monospace;
  background: #ddd6fe;
  color: #5b21b6;
  font-weight: normal;
}
.pub-group.orphans {
  background: transparent;
  border: 1px dashed var(--muted);
}
</style>"##;

/// Rating script of a book page.
pub const PAGE_SCRIPTS: &'static str = r##"<script>
(() => {
  const STORAGE_PREFIX = "aborg.audit.v1.";
  const sections = Array.from(document.querySelectorAll("section.book"));
  const filter = document.getElementById("filter");
  const exportBtn = document.getElementById("export");
  const progress = document.getElementById("progress");

  function key(slug) { return STORAGE_PREFIX + slug; }

  function load(slug) {
    try { return JSON.parse(localStorage.getItem(key(slug))) || {}; }
    catch { return {}; }
  }

  function save(slug, data) {
    localStorage.setItem(key(slug), JSON.stringify(data));
  }

  function hydrate(section) {
    const slug = section.dataset.slug;
    const data = load(slug);
    if (data.rating) {
      const radio = section.querySelector(`input[value="${data.rating}"]`);
      if (radio) { radio.checked = true; }
      section.dataset.rating = data.rating;
    }
    if (data.comment) {
      section.querySelector("textarea").value = data.comment;
    }
    if (data.rating || data.comment) {
      section.querySelector(".save-state").dataset.state = "saved";
      section.querySelector(".save-state").textContent = "saved";
    }
  }

  function persist(section) {
    const slug = section.dataset.slug;
    const rating = section.querySelector('input[name^="rating-"]:checked')?.value || "";
    const comment = section.querySelector("textarea").value;
    save(slug, { rating, comment, updated_at: new Date().toISOString() });
    section.dataset.rating = rating;
    const state = section.querySelector(".save-state");
    state.dataset.state = "saved";
    state.textContent = "saved";
    updateProgress();
    applyFilter();
  }

  function updateProgress() {
    const reviewed = sections.filter(s => s.dataset.rating).length;
    progress.textContent = `${reviewed} / ${sections.length} on this page reviewed`;
  }

  function applyFilter() {
    const v = filter.value;
    sections.forEach(s => {
      const r = s.dataset.rating;
      const show =
        v === "all" ||
        (v === "unreviewed" && !r) ||
        (v === "good" && r === "good") ||
        (v === "improve" && r === "improve") ||
        (v === "bad" && r === "bad");
      s.classList.toggle("hidden", !show);
    });
  }

  // Walk localStorage for every audit annotation, not just this
  // page's slugs — exporting from any page produces a complete
  // report. Older "data not on this page" rows still come along.
  function exportReport() {
    const books = [];
    for (let i = 0; i < localStorage.length; i++) {
      const k = localStorage.key(i);
      if (!k || !k.startsWith(STORAGE_PREFIX)) continue;
      const slug = k.slice(STORAGE_PREFIX.length);
      let d = {};
      try { d = JSON.parse(localStorage.getItem(k)) || {}; } catch { d = {}; }
      if (!d.rating && !d.comment) continue;
      books.push({
        slug,
        rating: d.rating || null,
        comment: d.comment || null,
        updated_at: d.updated_at || null,
      });
    }
    books.sort((a, b) => a.slug.localeCompare(b.slug));
    const out = {
      schema: "audiologo-audit-annotations-v2",
      exported_at: new Date().toISOString(),
      total: books.length,
      books,
    };
    const blob = new Blob([JSON.stringify(out, null, 2)], { type: "application/json" });
    const url = URL.createObjectURL(blob);
    const a = document.createElement("a");
    a.href = url;
    a.download = `audit-annotations-${Date.now()}.json`;
    document.body.appendChild(a);
    a.click();
    a.remove();
    URL.revokeObjectURL(url);
  }

  // Pause-other-clips on play. Operator complaint: a click can
  // overlap two clips if the previous one was still running.
  // Capture-phase listener catches every audio element on the
  // page (including future ones, though we have none).
  document.addEventListener("play", (e) => {
    if (e.target.tagName === "AUDIO") {
      document.querySelectorAll("audio").forEach((a) => {
        if (a !== e.target && !a.paused) { a.pause(); }
      });
    }
  }, true);

  sections.forEach(s => {
    hydrate(s);
    s.querySelectorAll('input[name^="rating-"]').forEach(r => {
      r.addEventListener("change", () => persist(s));
    });
    let ti = null;
    s.querySelector("textarea").addEventListener("input", () => {
      clearTimeout(ti);
      const state = s.querySelector(".save-state");
      state.dataset.state = "unsaved";
      state.textContent = "unsaved…";
      ti = setTimeout(() => persist(s), 500);
    });
  });

  filter.addEventListener("change", applyFilter);
  exportBtn.addEventListener("click", exportReport);
  updateProgress();
  applyFilter();
})();
</script>"##;

/// Style of a book page.
pub fn include_head() -> (s: &'static str)
    ensures
        s@ == PAGE_HEAD@,
{
    PAGE_HEAD
}

/// Style of the table of contents.
pub fn include_toc_head() -> (s: &'static str)
    ensures
        s@ == TOC_HEAD@,
{
    TOC_HEAD
}

/// Rating script of a book page.
pub fn include_scripts() -> (s: &'static str)
    ensures
        s@ == PAGE_SCRIPTS@,
{
    PAGE_SCRIPTS
}


// ── Texts ──────────────────────────────────────────────────────────

/// What a character becomes in HTML.
pub open spec fn escaped_char(c: char) -> Seq<char> {
    if c == '&' {
        "&amp;"@
    } else if c == '<' {
        "&lt;"@
    } else if c == '>' {
        "&gt;"@
    } else if c == '"' {
        "&quot;"@
    } else if c == '\'' {
        "&#39;"@
    } else {
        seq![c]
    }
}

/// `s` with the characters that HTML gives a meaning replaced.
pub open spec fn escaped(s: Seq<char>) -> Seq<char>
    decreases s.len(),
{
    if s.len() == 0 {
        Seq::empty()
    } else {
        escaped(s.drop_last()) + escaped_char(s.last())
    }
}

/// Replaces the characters that HTML gives a meaning.
pub fn html_escape(s: &str) -> (r: String)
    ensures
        r@ == escaped(s@),
{
    let v = text::chars_of(s);
    let mut r = String::new();
    let mut i: usize = 0;
    while i < v.len()
        invariant
            i <= v@.len(),
            r@ == escaped(v@.take(i as int)),
        decreases v@.len() - i,
    {
        let c = v[i];
        proof {
            assert(v@.take(i + 1).drop_last() =~= v@.take(i as int));
            assert(r@.push(c) =~= r@ + seq![c]);
        }
        if c == '&' {
            r.append("&amp;");
        } else if c == '<' {
            r.append("&lt;");
        } else if c == '>' {
            r.append("&gt;");
        } else if c == '"' {
            r.append("&quot;");
        } else if c == '\'' {
            r.append("&#39;");
        } else {
            r.push(c);
        }
        i = i + 1;
    }
    proof {
        assert(v@.take(i as int) =~= v@);
    }
    r
}

/// No character that opens or closes a tag or an attribute value survives
/// escaping.
pub proof fn law_escaped_is_inert(s: Seq<char>, i: int)
    requires
        0 <= i < escaped(s).len(),
    ensures
        escaped(s)[i] != '<',
        escaped(s)[i] != '>',
        escaped(s)[i] != '"',
        escaped(s)[i] != '\'',
    decreases s.len(),
{
    reveal_strlit("&amp;");
    reveal_strlit("&lt;");
    reveal_strlit("&gt;");
    reveal_strlit("&quot;");
    reveal_strlit("&#39;");
    if s.len() > 0 {
        let head = escaped(s.drop_last());
        if i < head.len() {
            law_escaped_is_inert(s.drop_last(), i);
        } else {
            assert(escaped(s)[i] == escaped_char(s.last())[i - head.len()]);
        }
    }
}

/// A time as minutes, seconds and milliseconds; a dash where there is none.
pub open spec fn ms_text(ms: Option<u64>) -> Seq<char> {
    match ms {
        Some(n) => text::zero_padded((n / 60_000) as nat, 2) + ":"@ + text::zero_padded(
            (n / 1000 % 60) as nat,
            2,
        ) + "."@ + text::zero_padded((n % 1000) as nat, 3),
        None => "—"@,
    }
}

/// Writes a time as minutes, seconds and milliseconds.
pub fn format_ms(ms: Option<u64>) -> (s: String)
    ensures
        s@ == ms_text(ms),
{
    match ms {
        Some(n) => {
            let total_secs: u64 = n / 1000;
            proof {
                assert(n / 1000 / 60 == n / 60_000);
            }
            let mut s = text::zero_pad(total_secs / 60, 2);
            s.append(":");
            s.append(text::zero_pad(total_secs % 60, 2).as_str());
            s.append(".");
            s.append(text::zero_pad(n % 1000, 3).as_str());
            s
        },
        None => text::owned("—"),
    }
}

/// Whether a publisher tag says anything.
pub open spec fn has_publisher(p: Option<Seq<char>>) -> bool {
    p matches Some(s) && text::trimmed(s).len() > 0
}

/// Whether a publisher tag is that of a publisher: it says something, and
/// does not begin with the character that Unicode sets aside.
pub open spec fn real_publisher(p: Option<Seq<char>>) -> bool {
    has_publisher(p) && !text::begins_last(p->0)
}

/// Sort key of a publisher: lower-case, or the last key of all.
pub open spec fn sort_key_of(p: Option<Seq<char>>) -> Seq<char> {
    if has_publisher(p) {
        text::lowercased(p->0)
    } else {
        NO_PUBLISHER_SORT_KEY@
    }
}

/// Label of a publisher.
pub open spec fn display_of(p: Option<Seq<char>>) -> Seq<char> {
    if has_publisher(p) {
        p->0
    } else {
        NO_PUBLISHER_DISPLAY@
    }
}

/// Sort key of a publisher. Absent and blank publishers share one key, after
/// that of every publisher.
pub fn publisher_sort_key(p: Option<&str>) -> (r: String)
    ensures
        r@ == sort_key_of(text::opt_str(p)),
        real_publisher(text::opt_str(p)) ==> ordering::text_lt(r@, sort_key_of(None)),
        !has_publisher(text::opt_str(p)) ==> r@ == sort_key_of(None),
{
    match p {
        Some(s) => if text::trim(s).as_str().is_empty() {
            text::owned(NO_PUBLISHER_SORT_KEY)
        } else {
            let key = text::to_lowercase(s);
            proof {
                if !text::begins_last(key@) {
                    reveal_strlit("\u{10FFFF}\u{10FFFF}\u{10FFFF}");
                    if text::begins_with(key@, NO_PUBLISHER_SORT_KEY@) {
                        assert(key@.subrange(0, 3)[0] == key@[0]);
                    }
                    law_no_publisher_last(key@);
                }
            }
            key
        },
        None => text::owned(NO_PUBLISHER_SORT_KEY),
    }
}

/// Label of a publisher.
pub fn publisher_display(p: Option<&str>) -> (r: &str)
    ensures
        r@ == display_of(text::opt_str(p)),
{
    match p {
        Some(s) => if text::trim(s).as_str().is_empty() {
            NO_PUBLISHER_DISPLAY
        } else {
            s
        },
        None => NO_PUBLISHER_DISPLAY,
    }
}

/// Every key but those that begin with the last key's own characters comes
/// before the key of the books without a publisher.
pub proof fn law_no_publisher_last(key: Seq<char>)
    requires
        !text::begins_with(key, NO_PUBLISHER_SORT_KEY@),
    ensures
        ordering::text_lt(key, NO_PUBLISHER_SORT_KEY@),
{
    reveal_strlit("\u{10FFFF}\u{10FFFF}\u{10FFFF}");
    let z = NO_PUBLISHER_SORT_KEY@;
    if key.len() >= 3 && key[0] == z[0] && key[1] == z[1] && key[2] == z[2] {
        assert(key.subrange(0, 3) =~= z);
        assert(text::stands_at(key, z, 0));
    }
    lemma_greatest_char(key[0]);
    lemma_greatest_char(key[1]);
    lemma_greatest_char(key[2]);
    reveal_with_fuel(ordering::text_lt, 4);
}

proof fn lemma_greatest_char(c: char)
    ensures
        c <= '\u{10FFFF}',
{
}

/// Name of a page file.
pub open spec fn page_name(page_num: nat) -> Seq<char> {
    "page-"@ + text::zero_padded(page_num, 2) + ".html"@
}

/// Name of a page file.
pub fn page_filename(page_num: usize) -> (s: String)
    ensures
        s@ == page_name(page_num as nat),
{
    let mut s = text::owned("page-");
    s.append(text::zero_pad(page_num as u64, 2).as_str());
    s.append(".html");
    s
}

/// The ending of a noun that counts `n` things.
pub open spec fn plural(n: nat) -> Seq<char> {
    if n == 1 {
        ""@
    } else {
        "s"@
    }
}

fn plural_ending(n: usize) -> (r: &'static str)
    ensures
        r@ == plural(n as nat),
{
    if n == 1 {
        ""
    } else {
        "s"
    }
}

// ── Seed counts ────────────────────────────────────────────────────

/// The number of seeds of one publisher.
#[derive(Debug)]
pub struct SeedCount {
    /// The publisher, or `(no publisher)`.
    pub publisher: String,
    /// How many seeds it has.
    pub count: usize,
}

/// Whether `counts` holds the publisher `key`.
pub open spec fn lists_publisher(counts: Seq<SeedCount>, key: Seq<char>) -> bool {
    exists|i: int| 0 <= i < counts.len() && (#[trigger] counts[i]).publisher@ == key
}

/// Label under which a seed is counted.
pub open spec fn seed_label(s: seed::SeedFingerprint) -> Seq<char> {
    display_of(text::opt_text(s.publisher))
}

/// The number of seeds, among the first `n`, with the label `key`.
pub open spec fn seeds_labelled(seeds: Seq<seed::SeedFingerprint>, key: Seq<char>, n: nat) -> nat
    decreases n,
{
    if n == 0 {
        0
    } else {
        seeds_labelled(seeds, key, (n - 1) as nat) + if seed_label(seeds[n - 1]) == key {
            1nat
        } else {
            0nat
        }
    }
}

/// Whether `counts` holds each label of the first `n` seeds once, with the
/// number of its seeds.
pub open spec fn counted_first(
    counts: Seq<SeedCount>,
    seeds: Seq<seed::SeedFingerprint>,
    n: nat,
) -> bool {
    &&& forall|i: int, j: int|
        0 <= i < j < counts.len() ==> (#[trigger] counts[i]).publisher@ != (
        #[trigger] counts[j]).publisher@
    &&& forall|i: int|
        0 <= i < counts.len() ==> (#[trigger] counts[i]).count == seeds_labelled(
            seeds,
            counts[i].publisher@,
            n,
        ) && counts[i].count > 0
    &&& forall|k: int|
        0 <= k < n ==> lists_publisher(counts, seed_label(#[trigger] seeds[k]))
}

/// Whether `counts` holds each publisher of `seeds`, as it is shown, once,
/// with the number of its seeds. Seeds with no publisher, or a blank one,
/// count under one label.
pub open spec fn counted(counts: Seq<SeedCount>, seeds: Seq<seed::SeedFingerprint>) -> bool {
    counted_first(counts, seeds, seeds.len())
}

proof fn lemma_labelled_bound(seeds: Seq<seed::SeedFingerprint>, key: Seq<char>, n: nat)
    ensures
        seeds_labelled(seeds, key, n) <= n,
    decreases n,
{
    if n > 0 {
        lemma_labelled_bound(seeds, key, (n - 1) as nat);
    }
}

proof fn lemma_labelled_none(seeds: Seq<seed::SeedFingerprint>, key: Seq<char>, n: nat)
    requires
        n <= seeds.len(),
        forall|k: int| 0 <= k < n ==> seed_label(#[trigger] seeds[k]) != key,
    ensures
        seeds_labelled(seeds, key, n) == 0,
    decreases n,
{
    if n > 0 {
        lemma_labelled_none(seeds, key, (n - 1) as nat);
    }
}

fn place_of(counts: &Vec<SeedCount>, key: &str) -> (i: usize)
    ensures
        i <= counts@.len(),
        i < counts@.len() ==> counts@[i as int].publisher@ == key@,
        i == counts@.len() ==> !lists_publisher(counts@, key@),
{
    let mut i: usize = 0;
    while i < counts.len()
        invariant
            i <= counts@.len(),
            forall|j: int| 0 <= j < i ==> (#[trigger] counts@[j]).publisher@ != key@,
        decreases counts@.len() - i,
    {
        if text::same_text(counts[i].publisher.as_str(), key) {
            return i;
        }
        i = i + 1;
    }
    i
}

/// The number of seeds of each publisher, as it is shown.
pub fn seed_publisher_counts(seeds: &seed::SeedDb) -> (counts: Vec<SeedCount>)
    ensures
        counted(counts@, seeds.fingerprints@),
{
    let ghost s = seeds.fingerprints@;
    let mut counts: Vec<SeedCount> = Vec::new();
    let mut n: usize = 0;
    while n < seeds.fingerprints.len()
        invariant
            n <= s.len(),
            s == seeds.fingerprints@,
            counted_first(counts@, s, n as nat),
        decreases s.len() - n,
    {
        let key = publisher_display(text::opt_as_str(&seeds.fingerprints[n].publisher));
        let i: usize = place_of(&counts, key);
        let ghost before = counts@;
        proof {
            assert(key@ == seed_label(s[n as int]));
        }
        if i < counts.len() {
            proof {
                lemma_labelled_bound(s, key@, n as nat);
                assert(counts@[i as int].count <= n);
            }
            let more: usize = counts[i].count + 1;
            counts[i].count = more;
            proof {
                assert(counts@.len() == before.len());
                assert forall|j: int| 0 <= j < before.len() implies (
                #[trigger] counts@[j]).publisher@ == before[j].publisher@ && counts@[j].count
                    == before[j].count + (if j == i {
                    1int
                } else {
                    0int
                }) by {}
                assert forall|j: int, k: int| 0 <= j < k < counts@.len() implies (
                #[trigger] counts@[j]).publisher@ != (#[trigger] counts@[k]).publisher@ by {
                    assert(before[j].publisher@ != before[k].publisher@);
                }
                assert forall|j: int| 0 <= j < counts@.len() implies (#[trigger] counts@[j]).count
                    == seeds_labelled(s, counts@[j].publisher@, (n + 1) as nat) && counts@[j].count
                    > 0 by {
                    assert(before[j].count == seeds_labelled(s, before[j].publisher@, n as nat));
                    if j < i {
                        assert(before[j].publisher@ != before[i as int].publisher@);
                    } else if j > i {
                        assert(before[i as int].publisher@ != before[j].publisher@);
                    }
                }
            }
        } else {
            counts.push(SeedCount { publisher: text::owned(key), count: 1 });
            proof {
                assert forall|k: int| 0 <= k < n implies seed_label(#[trigger] s[k]) != key@ by {
                    assert(lists_publisher(before, seed_label(s[k])));
                }
                lemma_labelled_none(s, key@, n as nat);
                assert forall|j: int| 0 <= j < before.len() implies counts@[j]
                    == #[trigger] before[j] by {}
                assert forall|j: int, k: int| 0 <= j < k < counts@.len() implies (
                #[trigger] counts@[j]).publisher@ != (#[trigger] counts@[k]).publisher@ by {
                    assert(counts@[j] == before[j]);
                }
                assert forall|j: int| 0 <= j < counts@.len() implies (#[trigger] counts@[j]).count
                    == seeds_labelled(s, counts@[j].publisher@, (n + 1) as nat) && counts@[j].count
                    > 0 by {
                    if j < before.len() {
                        assert(before[j].count == seeds_labelled(
                            s,
                            before[j].publisher@,
                            n as nat,
                        ));
                        assert(before[j].publisher@ != key@);
                    }
                }
            }
        }
        proof {
            assert(counts@[i as int].publisher@ == key@);
            assert forall|k: int| 0 <= k < n + 1 implies lists_publisher(
                counts@,
                seed_label(#[trigger] s[k]),
            ) by {
                if k < n {
                    assert(lists_publisher(before, seed_label(s[k])));
                    let w = choose|w: int|
                        0 <= w < before.len() && (#[trigger] before[w]).publisher@ == seed_label(
                            s[k],
                        );
                    assert(counts@[w].publisher@ == before[w].publisher@);
                }
            }
        }
        n = n + 1;
    }
    counts
}

/// The count of a publisher among `counts`; 0 where it is not among them.
pub open spec fn count_of(counts: Seq<SeedCount>, key: Seq<char>) -> nat
    decreases counts.len(),
{
    if counts.len() == 0 {
        0
    } else if counts.last().publisher@ == key {
        counts.last().count as nat
    } else {
        count_of(counts.drop_last(), key)
    }
}

/// The number of seeds of a book's publisher.
pub fn seed_count_for(counts: &Vec<SeedCount>, publisher: Option<&str>) -> (r: usize)
    ensures
        r == count_of(counts@, display_of(text::opt_str(publisher))),
{
    let key = publisher_display(publisher);
    let mut n: usize = counts.len();
    proof {
        assert(counts@.take(n as int) =~= counts@);
    }
    while n > 0
        invariant
            n <= counts@.len(),
            count_of(counts@, key@) == count_of(counts@.take(n as int), key@),
            key@ == display_of(text::opt_str(publisher)),
        decreases n,
    {
        if text::same_text(counts[n - 1].publisher.as_str(), key) {
            return counts[n - 1].count;
        }
        proof {
            assert(counts@.take(n as int).drop_last() =~= counts@.take(n - 1));
        }
        n = n - 1;
    }
    0
}

/// A book is shown the number of seeds with the label of its publisher.
pub proof fn law_count_is_labelled(
    counts: Seq<SeedCount>,
    seeds: Seq<seed::SeedFingerprint>,
    key: Seq<char>,
)
    requires
        counted(counts, seeds),
    ensures
        count_of(counts, key) == seeds_labelled(seeds, key, seeds.len()),
{
    if lists_publisher(counts, key) {
        let i = choose|i: int| 0 <= i < counts.len() && (#[trigger] counts[i]).publisher@ == key;
        lemma_count_at(counts, key, i);
    } else {
        lemma_count_absent(counts, key);
        assert forall|k: int| 0 <= k < seeds.len() implies seed_label(#[trigger] seeds[k])
            != key by {
            assert(lists_publisher(counts, seed_label(seeds[k])));
        }
        lemma_labelled_none(seeds, key, seeds.len());
    }
}

proof fn lemma_count_at(counts: Seq<SeedCount>, key: Seq<char>, i: int)
    requires
        0 <= i < counts.len(),
        counts[i].publisher@ == key,
        forall|a: int, b: int|
            0 <= a < b < counts.len() ==> (#[trigger] counts[a]).publisher@ != (
            #[trigger] counts[b]).publisher@,
    ensures
        count_of(counts, key) == counts[i].count,
    decreases counts.len(),
{
    if i < counts.len() - 1 {
        assert(counts[i].publisher@ != counts[counts.len() - 1].publisher@);
        lemma_count_at(counts.drop_last(), key, i);
    }
}

proof fn lemma_count_absent(counts: Seq<SeedCount>, key: Seq<char>)
    requires
        forall|i: int| 0 <= i < counts.len() ==> (#[trigger] counts[i]).publisher@ != key,
    ensures
        count_of(counts, key) == 0,
    decreases counts.len(),
{
    if counts.len() > 0 {
        lemma_count_absent(counts.drop_last(), key);
    }
}

/// The sum of the first `n` counts.
pub open spec fn total_of(counts: Seq<SeedCount>, n: nat) -> nat
    decreases n,
{
    if n == 0 {
        0
    } else {
        total_of(counts, (n - 1) as nat) + counts[n - 1].count as nat
    }
}

/// The sum over the first `m` publishers of their seeds among the first `n`.
spec fn labelled_total(
    counts: Seq<SeedCount>,
    seeds: Seq<seed::SeedFingerprint>,
    n: nat,
    m: nat,
) -> nat
    decreases m,
{
    if m == 0 {
        0
    } else {
        labelled_total(counts, seeds, n, (m - 1) as nat) + seeds_labelled(
            seeds,
            counts[m - 1].publisher@,
            n,
        )
    }
}

proof fn lemma_labelled_total_step(
    counts: Seq<SeedCount>,
    seeds: Seq<seed::SeedFingerprint>,
    n: nat,
    m: nat,
    w: int,
)
    requires
        0 < n <= seeds.len(),
        m <= counts.len(),
        0 <= w < counts.len(),
        counts[w].publisher@ == seed_label(seeds[n - 1]),
        forall|a: int, b: int|
            0 <= a < b < counts.len() ==> (#[trigger] counts[a]).publisher@ != (
            #[trigger] counts[b]).publisher@,
    ensures
        labelled_total(counts, seeds, n, m) == labelled_total(counts, seeds, (n - 1) as nat, m) + (
        if w < m {
            1nat
        } else {
            0nat
        }),
    decreases m,
{
    if m > 0 {
        lemma_labelled_total_step(counts, seeds, n, (m - 1) as nat, w);
        if w != m - 1 {
            if w < m - 1 {
                assert(counts[w].publisher@ != counts[m - 1].publisher@);
            } else {
                assert(counts[m - 1].publisher@ != counts[w].publisher@);
            }
        }
    }
}

proof fn lemma_labelled_total(counts: Seq<SeedCount>, seeds: Seq<seed::SeedFingerprint>, n: nat)
    requires
        counted(counts, seeds),
        n <= seeds.len(),
    ensures
        labelled_total(counts, seeds, n, counts.len()) == n,
    decreases n,
{
    if n == 0 {
        lemma_labelled_total_zero(counts, seeds, counts.len());
    } else {
        lemma_labelled_total(counts, seeds, (n - 1) as nat);
        let k = n - 1;
        assert(lists_publisher(counts, seed_label(seeds[k])));
        let w = choose|w: int|
            0 <= w < counts.len() && (#[trigger] counts[w]).publisher@ == seed_label(seeds[k]);
        lemma_labelled_total_step(counts, seeds, n, counts.len(), w);
    }
}

proof fn lemma_labelled_total_zero(
    counts: Seq<SeedCount>,
    seeds: Seq<seed::SeedFingerprint>,
    m: nat,
)
    ensures
        labelled_total(counts, seeds, 0, m) == 0,
    decreases m,
{
    if m > 0 {
        lemma_labelled_total_zero(counts, seeds, (m - 1) as nat);
    }
}

proof fn lemma_totals_agree(counts: Seq<SeedCount>, seeds: Seq<seed::SeedFingerprint>, m: nat)
    requires
        counted(counts, seeds),
        m <= counts.len(),
    ensures
        total_of(counts, m) == labelled_total(counts, seeds, seeds.len(), m),
    decreases m,
{
    if m > 0 {
        lemma_totals_agree(counts, seeds, (m - 1) as nat);
    }
}

/// Every seed is counted once: the counts add up to the number of seeds.
pub proof fn law_counts_add_up(counts: Seq<SeedCount>, seeds: Seq<seed::SeedFingerprint>)
    requires
        counted(counts, seeds),
    ensures
        total_of(counts, counts.len()) == seeds.len(),
{
    lemma_labelled_total(counts, seeds, seeds.len());
    lemma_totals_agree(counts, seeds, counts.len());
}

proof fn lemma_total_grows(counts: Seq<SeedCount>, m: nat, n: nat)
    requires
        m <= n,
    ensures
        total_of(counts, m) <= total_of(counts, n),
    decreases n,
{
    if m < n {
        lemma_total_grows(counts, m, (n - 1) as nat);
    }
}

/// The sum of all counts.
pub fn total_seeds(counts: &Vec<SeedCount>) -> (r: usize)
    requires
        total_of(counts@, counts@.len()) <= usize::MAX,
    ensures
        r == total_of(counts@, counts@.len()),
{
    let mut sum: usize = 0;
    let mut i: usize = 0;
    while i < counts.len()
        invariant
            i <= counts@.len(),
            sum == total_of(counts@, i as nat),
            total_of(counts@, counts@.len()) <= usize::MAX,
        decreases counts@.len() - i,
    {
        proof {
            lemma_total_grows(counts@, (i + 1) as nat, counts@.len());
        }
        sum = sum + counts[i].count;
        i = i + 1;
    }
    sum
}


// ── Book pages ─────────────────────────────────────────────────────


/// A detail clip beside the overview.
pub open spec fn detail_block_html(d: entry::DetailClip) -> Seq<char> {
    "<div class=\"detail-clip\">\n        <h4>Detail · "@
        + text::decimal(d.duration_secs as nat)
        + "s from "@
        + ms_text(Some(d.start_offset_in_overview_ms))
        + " <span class=\"muted\">in the overview</span></h4>\n        <div class=\"wave\">"@
        + d.waveform_svg@
        + "</div>\n        <audio controls preload=\"none\" src=\""@
        + escaped(d.clip_rel@)
        + "\"></audio>\n      </div>"@
}

/// A detail clip beside the overview.
fn detail_block(d: &entry::DetailClip) -> (s: String)
    ensures
        s@ == detail_block_html(*d),
{
    let mut s = text::owned("<div class=\"detail-clip\">\n        <h4>Detail · ");
    s.append(text::u64_text(d.duration_secs as u64).as_str());
    s.append("s from ");
    s.append(format_ms(Some(d.start_offset_in_overview_ms)).as_str());
    s.append(" <span class=\"muted\">in the overview</span></h4>\n        <div class=\"wave\">");
    s.append(d.waveform_svg.as_str());
    s.append("</div>\n        <audio controls preload=\"none\" src=\"");
    s.append(html_escape(d.clip_rel.as_str()).as_str());
    s.append("\"></audio>\n      </div>");
    s
}


/// The detail clip of one end of a book, where there is one.
pub open spec fn detail_html(detail: Option<entry::DetailClip>) -> Seq<char> {
    match detail {
        Some(d) => detail_block_html(d),
        None => Seq::empty(),
    }
}

/// Renders the detail clip of one end of a book, where there is one.
pub fn render_detail_clip(detail: &Option<entry::DetailClip>) -> (s: String)
    ensures
        s@ == detail_html(*detail),
{
    match detail {
        Some(d) => detail_block(d),
        None => String::new(),
    }
}

/// A text, or `absent` where there is none.
pub open spec fn text_or(t: Option<String>, absent: Seq<char>) -> Seq<char> {
    match t {
        Some(s) => s@,
        None => absent,
    }
}

fn escape_or(t: &Option<String>, absent: &str) -> (s: String)
    ensures
        s@ == escaped(text_or(*t, absent@)),
{
    match t {
        Some(s) => html_escape(s.as_str()),
        None => html_escape(absent),
    }
}


/// One side of a seed match.
pub open spec fn side_html(label: Seq<char>, m: entry::SeedMatchSummary) -> Seq<char> {
    "<div>"@
        + label
        + ": <strong>"@
        + escaped(text_or(m.publisher, "?"@))
        + "</strong> · cosine "@
        + m.confidence_shown@
        + " <span class=\"muted\">("@
        + text::decimal(m.seed_windows as nat)
        + " × 100ms windows)</span></div>"@
}

/// One side of a seed match.
fn side(label: &str, m: &entry::SeedMatchSummary) -> (s: String)
    ensures
        s@ == side_html(label@, *m),
{
    let mut s = text::owned("<div>");
    s.append(label);
    s.append(": <strong>");
    s.append(escape_or(&m.publisher, "?").as_str());
    s.append("</strong> · cosine ");
    s.append(m.confidence_shown.as_str());
    s.append(" <span class=\"muted\">(");
    s.append(text::usize_text(m.seed_windows).as_str());
    s.append(" × 100ms windows)</span></div>");
    s
}


/// One side of a seed match, where there is one.
pub open spec fn optional_side_html(
    label: Seq<char>,
    m: Option<entry::SeedMatchSummary>,
) -> Seq<char> {
    match m {
        Some(m) => side_html(label, m),
        None => Seq::empty(),
    }
}

/// What triggered a seed match: the publisher and similarity of each side.
pub open spec fn seed_trigger_html(
    front: Option<entry::SeedMatchSummary>,
    end: Option<entry::SeedMatchSummary>,
) -> Seq<char> {
    if front is None && end is None {
        "<em>(no side matched)</em>"@
    } else {
        optional_side_html("Front"@, front) + optional_side_html("End"@, end)
    }
}

/// Writes what triggered a seed match.
pub fn format_seed_match_trigger(
    front: &Option<entry::SeedMatchSummary>,
    end: &Option<entry::SeedMatchSummary>,
) -> (s: String)
    ensures
        s@ == seed_trigger_html(*front, *end),
{
    if front.is_none() && end.is_none() {
        return text::owned("<em>(no side matched)</em>");
    }
    let mut s = match front {
        Some(m) => side("Front", m),
        None => String::new(),
    };
    if let Some(m) = end {
        s.append(side("End", m).as_str());
    }
    proof {
        assert(s@ =~= seed_trigger_html(*front, *end));
    }
    s
}

/// The badge of a detection.
pub open spec fn method_html(d: entry::DetectionInfo) -> Seq<char> {
    match d {
        entry::DetectionInfo::Stub => "<span class=\"badge stub\">No seed match</span>"@,
        entry::DetectionInfo::NoCandidate => "<span class=\"badge none\">No candidate</span>"@,
        entry::DetectionInfo::SeedMatch { front, end } => {
            "<span class=\"badge seed-match\">Seed match</span>"@
        },
        entry::DetectionInfo::Detected { method_label, .. } => {
            "<span class=\"badge detected\">"@ + escaped(method_label@) + "</span>"@
        },
    }
}

/// What triggered a detection.
pub open spec fn trigger_html(d: entry::DetectionInfo) -> Seq<char> {
    match d {
        entry::DetectionInfo::Stub => {
            "<em>No publisher-compatible seed matched. Operator rates the clips; transcript / silence cascade not yet wired.</em>"@
        },
        entry::DetectionInfo::NoCandidate => {
            "Detection ran; no method fired above threshold. Book likely clean (no audiologo)."@
        },
        entry::DetectionInfo::SeedMatch { front, end } => seed_trigger_html(front, end),
        entry::DetectionInfo::Detected { trigger_summary, .. } => escaped(trigger_summary@),
    }
}

/// Where a side was matched.
pub open spec fn match_ms(m: Option<entry::SeedMatchSummary>) -> Option<u64> {
    match m {
        Some(m) => Some(m.approx_offset_ms),
        None => None,
    }
}

/// Where the front is to be cut.
pub open spec fn front_cut(d: entry::DetectionInfo) -> Option<u64> {
    match d {
        entry::DetectionInfo::SeedMatch { front, end } => match_ms(front),
        entry::DetectionInfo::Detected { front_cut_ms, .. } => front_cut_ms,
        _ => None,
    }
}

/// Where the end is to be cut.
pub open spec fn end_cut(d: entry::DetectionInfo) -> Option<u64> {
    match d {
        entry::DetectionInfo::SeedMatch { front, end } => match_ms(end),
        entry::DetectionInfo::Detected { end_cut_ms, .. } => end_cut_ms,
        _ => None,
    }
}

fn side_ms(m: &Option<entry::SeedMatchSummary>) -> (r: Option<u64>)
    ensures
        r == match_ms(*m),
{
    match m {
        Some(m) => Some(m.approx_offset_ms),
        None => None,
    }
}

fn method_badge(d: &entry::DetectionInfo) -> (s: String)
    ensures
        s@ == method_html(*d),
{
    match d {
        entry::DetectionInfo::Stub => text::owned(
            "<span class=\"badge stub\">No seed match</span>",
        ),
        entry::DetectionInfo::NoCandidate => text::owned(
            "<span class=\"badge none\">No candidate</span>",
        ),
        entry::DetectionInfo::SeedMatch { front, end } => text::owned(
            "<span class=\"badge seed-match\">Seed match</span>",
        ),
        entry::DetectionInfo::Detected { method_label, .. } => {
            let mut s = text::owned("<span class=\"badge detected\">");
            s.append(html_escape(method_label.as_str()).as_str());
            s.append("</span>");
            s
        },
    }
}

fn trigger_cell(d: &entry::DetectionInfo) -> (s: String)
    ensures
        s@ == trigger_html(*d),
{
    match d {
        entry::DetectionInfo::Stub => text::owned(
            "<em>No publisher-compatible seed matched. Operator rates the clips; transcript / silence cascade not yet wired.</em>",
        ),
        entry::DetectionInfo::NoCandidate => text::owned(
            "Detection ran; no method fired above threshold. Book likely clean (no audiologo).",
        ),
        entry::DetectionInfo::SeedMatch { front, end } => format_seed_match_trigger(front, end),
        entry::DetectionInfo::Detected { trigger_summary, .. } => html_escape(
            trigger_summary.as_str(),
        ),
    }
}

fn cuts(d: &entry::DetectionInfo) -> (r: (Option<u64>, Option<u64>))
    ensures
        r.0 == front_cut(*d),
        r.1 == end_cut(*d),
{
    match d {
        entry::DetectionInfo::SeedMatch { front, end } => (side_ms(front), side_ms(end)),
        entry::DetectionInfo::Detected { front_cut_ms, end_cut_ms, .. } => (
            *front_cut_ms,
            *end_cut_ms,
        ),
        _ => (None, None),
    }
}

/// The state of a detection as the data file names it.
pub open spec fn state_text(d: entry::DetectionInfo) -> Seq<char> {
    match d {
        entry::DetectionInfo::Stub => "stub"@,
        entry::DetectionInfo::NoCandidate => "no_candidate"@,
        entry::DetectionInfo::SeedMatch { front, end } => "seed_match"@,
        entry::DetectionInfo::Detected { .. } => "detected"@,
    }
}

/// The state of a detection as the data file names it.
pub fn detection_state(d: &entry::DetectionInfo) -> (r: &'static str)
    ensures
        r@ == state_text(*d),
{
    match d {
        entry::DetectionInfo::Stub => "stub",
        entry::DetectionInfo::NoCandidate => "no_candidate",
        entry::DetectionInfo::SeedMatch { front, end } => "seed_match",
        entry::DetectionInfo::Detected { .. } => "detected",
    }
}

/// The badge with the number of seeds of a book's publisher.
pub open spec fn chip_html(seeds: nat) -> Seq<char> {
    if seeds > 0 {
        " <span class=\"seed-badge\">"@ + text::decimal(seeds) + " known seed"@ + plural(seeds)
            + "</span>"@
    } else {
        Seq::empty()
    }
}

fn chip(seeds: usize) -> (s: String)
    ensures
        s@ == chip_html(seeds as nat),
{
    if seeds > 0 {
        let mut s = text::owned(" <span class=\"seed-badge\">");
        s.append(text::usize_text(seeds).as_str());
        s.append(" known seed");
        s.append(plural_ending(seeds));
        s.append("</span>");
        s
    } else {
        String::new()
    }
}


/// One book of a page.
#[verifier::opaque]
pub open spec fn section_html(e: entry::AuditEntry, counts: Seq<SeedCount>) -> Seq<char> {
    "<section class=\"book\" id=\""@
        + escaped(e.slug@)
        + "\" data-slug=\""@
        + escaped(e.slug@)
        + "\" data-rating=\"\">\n  <h2>"@
        + escaped(e.title@)
        + "</h2>\n  <div class=\"src\"><code>"@
        + escaped(e.source_path@)
        + "</code></div>\n  <div class=\"row\">\n    <div class=\"cell\">\n      <div class=\"label\">Detection method</div>\n      <div>"@
        + method_html(e.detection)
        + "</div>\n    </div>\n    <div class=\"cell\">\n      <div class=\"label\">Trigger</div>\n      <div>"@
        + trigger_html(e.detection)
        + "</div>\n    </div>\n    <div class=\"cell\">\n      <div class=\"label\">Duration</div>\n      <div>"@
        + ms_text(Some(e.duration_ms))
        + "</div>\n    </div>\n  </div>\n  <div class=\"row\">\n    <div class=\"cell\">\n      <div class=\"label\">Publisher</div>\n      <div>"@
        + escaped(text_or(e.publisher, "—"@))
        + chip_html(count_of(counts, display_of(text::opt_text(e.publisher))))
        + "</div>\n    </div>\n    <div class=\"cell\">\n      <div class=\"label\">Copyright</div>\n      <div>"@
        + escaped(text_or(e.copyright, "—"@))
        + "</div>\n    </div>\n  </div>\n  <div class=\"cuts\">\n    <div class=\"cut-half\">\n      <h3>Front · cut @ "@
        + ms_text(front_cut(e.detection))
        + "</h3>\n      <div class=\"wave\">"@
        + e.front_waveform_svg@
        + "</div>\n      <audio controls preload=\"none\" src=\""@
        + escaped(e.front_clip_rel@)
        + "\"></audio>\n      "@
        + detail_html(e.front_detail)
        + "\n    </div>\n    <div class=\"cut-half\">\n      <h3>End · cut @ "@
        + ms_text(end_cut(e.detection))
        + "</h3>\n      <div class=\"wave\">"@
        + e.end_waveform_svg@
        + "</div>\n      <audio controls preload=\"none\" src=\""@
        + escaped(e.end_clip_rel@)
        + "\"></audio>\n      "@
        + detail_html(e.end_detail)
        + "\n    </div>\n  </div>\n  <div class=\"rating\">\n    <label><input type=\"radio\" name=\"rating-"@
        + escaped(e.slug@)
        + "\" value=\"good\"> Good</label>\n    <label><input type=\"radio\" name=\"rating-"@
        + escaped(e.slug@)
        + "\" value=\"improve\"> Improve</label>\n    <label><input type=\"radio\" name=\"rating-"@
        + escaped(e.slug@)
        + "\" value=\"bad\"> Bad</label>\n    <span class=\"save-state\" data-state=\"unsaved\">unsaved</span>\n  </div>\n  <div class=\"comment\">\n    <textarea placeholder=\"Notes for this book (visible in exported report)…\"></textarea>\n  </div>\n</section>\n"@
}

/// Renders one book of a page.
pub fn render_book_section(e: &entry::AuditEntry, counts: &Vec<SeedCount>) -> (s: String)
    ensures
        s@ == section_html(*e, counts@),
{
    let seeds: usize = seed_count_for(counts, text::opt_as_str(&e.publisher));
    let (front, end) = cuts(&e.detection);
    let mut s = text::owned("<section class=\"book\" id=\"");
    s.append(html_escape(e.slug.as_str()).as_str());
    s.append("\" data-slug=\"");
    s.append(html_escape(e.slug.as_str()).as_str());
    s.append("\" data-rating=\"\">\n  <h2>");
    s.append(html_escape(e.title.as_str()).as_str());
    s.append("</h2>\n  <div class=\"src\"><code>");
    s.append(html_escape(e.source_path.as_str()).as_str());
    s.append("</code></div>\n  <div class=\"row\">\n    <div class=\"cell\">\n      <div class=\"label\">Detection method</div>\n      <div>");
    s.append(method_badge(&e.detection).as_str());
    s.append("</div>\n    </div>\n    <div class=\"cell\">\n      <div class=\"label\">Trigger</div>\n      <div>");
    s.append(trigger_cell(&e.detection).as_str());
    s.append("</div>\n    </div>\n    <div class=\"cell\">\n      <div class=\"label\">Duration</div>\n      <div>");
    s.append(format_ms(Some(e.duration_ms)).as_str());
    s.append("</div>\n    </div>\n  </div>\n  <div class=\"row\">\n    <div class=\"cell\">\n      <div class=\"label\">Publisher</div>\n      <div>");
    s.append(escape_or(&e.publisher, "—").as_str());
    s.append(chip(seeds).as_str());
    s.append("</div>\n    </div>\n    <div class=\"cell\">\n      <div class=\"label\">Copyright</div>\n      <div>");
    s.append(escape_or(&e.copyright, "—").as_str());
    s.append("</div>\n    </div>\n  </div>\n  <div class=\"cuts\">\n    <div class=\"cut-half\">\n      <h3>Front · cut @ ");
    s.append(format_ms(front).as_str());
    s.append("</h3>\n      <div class=\"wave\">");
    s.append(e.front_waveform_svg.as_str());
    s.append("</div>\n      <audio controls preload=\"none\" src=\"");
    s.append(html_escape(e.front_clip_rel.as_str()).as_str());
    s.append("\"></audio>\n      ");
    s.append(render_detail_clip(&e.front_detail).as_str());
    s.append("\n    </div>\n    <div class=\"cut-half\">\n      <h3>End · cut @ ");
    s.append(format_ms(end).as_str());
    s.append("</h3>\n      <div class=\"wave\">");
    s.append(e.end_waveform_svg.as_str());
    s.append("</div>\n      <audio controls preload=\"none\" src=\"");
    s.append(html_escape(e.end_clip_rel.as_str()).as_str());
    s.append("\"></audio>\n      ");
    s.append(render_detail_clip(&e.end_detail).as_str());
    s.append("\n    </div>\n  </div>\n  <div class=\"rating\">\n    <label><input type=\"radio\" name=\"rating-");
    s.append(html_escape(e.slug.as_str()).as_str());
    s.append("\" value=\"good\"> Good</label>\n    <label><input type=\"radio\" name=\"rating-");
    s.append(html_escape(e.slug.as_str()).as_str());
    s.append("\" value=\"improve\"> Improve</label>\n    <label><input type=\"radio\" name=\"rating-");
    s.append(html_escape(e.slug.as_str()).as_str());
    s.append("\" value=\"bad\"> Bad</label>\n    <span class=\"save-state\" data-state=\"unsaved\">unsaved</span>\n  </div>\n  <div class=\"comment\">\n    <textarea placeholder=\"Notes for this book (visible in exported report)…\"></textarea>\n  </div>\n</section>\n");
    proof {
        reveal(section_html);
    }
    s
}


/// The first `n` books of a page.
pub open spec fn sections_html(
    entries: Seq<&entry::AuditEntry>,
    counts: Seq<SeedCount>,
    n: nat,
) -> Seq<char>
    decreases n,
{
    if n == 0 {
        Seq::empty()
    } else {
        sections_html(entries, counts, (n - 1) as nat) + section_html(*entries[n - 1], counts)
    }
}

/// Link to the previous page.
pub open spec fn prev_html(page_num: nat) -> Seq<char> {
    if page_num > 1 {
        "<a class=\"pager\" href=\""@ + page_name((page_num - 1) as nat) + "\">← prev</a>"@
    } else {
        "<span class=\"pager disabled\">← prev</span>"@
    }
}

/// Link to the next page.
pub open spec fn next_html(page_num: nat, total_pages: nat) -> Seq<char> {
    if page_num < total_pages {
        "<a class=\"pager\" href=\""@ + page_name(page_num + 1) + "\">next →</a>"@
    } else {
        "<span class=\"pager disabled\">next →</span>"@
    }
}

fn prev_link(page_num: usize) -> (s: String)
    ensures
        s@ == prev_html(page_num as nat),
{
    if page_num > 1 {
        let mut s = text::owned("<a class=\"pager\" href=\"");
        s.append(page_filename(page_num - 1).as_str());
        s.append("\">← prev</a>");
        s
    } else {
        text::owned("<span class=\"pager disabled\">← prev</span>")
    }
}

fn next_link(page_num: usize, total_pages: usize) -> (s: String)
    ensures
        s@ == next_html(page_num as nat, total_pages as nat),
{
    if page_num < total_pages {
        let mut s = text::owned("<a class=\"pager\" href=\"");
        s.append(page_filename(page_num + 1).as_str());
        s.append("\">next →</a>");
        s
    } else {
        text::owned("<span class=\"pager disabled\">next →</span>")
    }
}

fn render_sections(entries: &Vec<&entry::AuditEntry>, counts: &Vec<SeedCount>) -> (sections: String)
    ensures
        sections@ == sections_html(entries@, counts@, entries@.len()),
{
    let mut sections = String::new();
    let mut i: usize = 0;
    while i < entries.len()
        invariant
            i <= entries@.len(),
            sections@ == sections_html(entries@, counts@, i as nat),
        decreases entries@.len() - i,
    {
        sections.append(render_book_section(entries[i], counts).as_str());
        i = i + 1;
    }
    sections
}

/// One page.
pub open spec fn page_html(
    corpus: Seq<char>,
    entries: Seq<&entry::AuditEntry>,
    page_num: nat,
    total_pages: nat,
    counts: Seq<SeedCount>,
) -> Seq<char> {
    "<!DOCTYPE html>\n<html lang=\"en\">\n<head>\n"@
        + PAGE_HEAD@
        + "\n<title>Audiologo audit — page "@
        + text::decimal(page_num)
        + "/"@
        + text::decimal(total_pages)
        + "</title>\n</head>\n<body>\n<header>\n  <h1>Audiologo audit · page "@
        + text::decimal(page_num)
        + "/"@
        + text::decimal(total_pages)
        + "</h1>\n  <div class=\"meta\">\n    <span>Corpus: <code>"@
        + escaped(corpus)
        + "</code></span>\n    <span id=\"progress\" class=\"progress\"></span>\n  </div>\n  <div class=\"toolbar\">\n    <a class=\"pager\" href=\"index.html\">↑ TOC</a>\n    "@
        + prev_html(page_num)
        + "\n    "@
        + next_html(page_num, total_pages)
        + "\n    <label>Filter:\n      <select id=\"filter\">\n        <option value=\"all\">All</option>\n        <option value=\"unreviewed\">Unreviewed</option>\n        <option value=\"good\">Good</option>\n        <option value=\"improve\">Improve</option>\n        <option value=\"bad\">Bad</option>\n      </select>\n    </label>\n    <button type=\"button\" id=\"export\">Export Report</button>\n  </div>\n</header>\n<main>\n"@
        + sections_html(entries, counts, entries.len())
        + "\n</main>\n"@
        + PAGE_SCRIPTS@
        + "\n</body>\n</html>"@
}

/// Renders one page.
pub fn render_page(
    corpus: &str,
    entries: &Vec<&entry::AuditEntry>,
    page_num: usize,
    total_pages: usize,
    counts: &Vec<SeedCount>,
) -> (s: String)
    ensures
        s@ == page_html(corpus@, entries@, page_num as nat, total_pages as nat, counts@),
{
    let sections = render_sections(entries, counts);
    let mut s = text::owned("<!DOCTYPE html>\n<html lang=\"en\">\n<head>\n");
    s.append(include_head());
    s.append("\n<title>Audiologo audit — page ");
    s.append(text::usize_text(page_num).as_str());
    s.append("/");
    s.append(text::usize_text(total_pages).as_str());
    s.append("</title>\n</head>\n<body>\n<header>\n  <h1>Audiologo audit · page ");
    s.append(text::usize_text(page_num).as_str());
    s.append("/");
    s.append(text::usize_text(total_pages).as_str());
    s.append("</h1>\n  <div class=\"meta\">\n    <span>Corpus: <code>");
    s.append(html_escape(corpus).as_str());
    s.append("</code></span>\n    <span id=\"progress\" class=\"progress\"></span>\n  </div>\n  <div class=\"toolbar\">\n    <a class=\"pager\" href=\"index.html\">↑ TOC</a>\n    ");
    s.append(prev_link(page_num).as_str());
    s.append("\n    ");
    s.append(next_link(page_num, total_pages).as_str());
    s.append("\n    <label>Filter:\n      <select id=\"filter\">\n        <option value=\"all\">All</option>\n        <option value=\"unreviewed\">Unreviewed</option>\n        <option value=\"good\">Good</option>\n        <option value=\"improve\">Improve</option>\n        <option value=\"bad\">Bad</option>\n      </select>\n    </label>\n    <button type=\"button\" id=\"export\">Export Report</button>\n  </div>\n</header>\n<main>\n");
    s.append(sections.as_str());
    s.append("\n</main>\n");
    s.append(include_scripts());
    s.append("\n</body>\n</html>");
    s
}


// ── Table of contents ──────────────────────────────────────────────

/// The books of page `page`, among its first `n`.
pub open spec fn page_items(
    entries: Seq<&entry::AuditEntry>,
    page: usize,
    n: nat,
) -> Seq<(usize, &entry::AuditEntry)> {
    Seq::new(n, |i: int| (page, entries[i]))
}

/// The books of the first `n` pages, each with its page number.
pub open spec fn toc_items(pages: Seq<Vec<&entry::AuditEntry>>, n: nat) -> Seq<
    (usize, &entry::AuditEntry),
>
    decreases n,
{
    if n == 0 {
        Seq::empty()
    } else {
        toc_items(pages, (n - 1) as nat) + page_items(
            pages[n - 1]@,
            n as usize,
            pages[n - 1]@.len(),
        )
    }
}

/// Sort key of a book's publisher.
pub open spec fn item_key(item: (usize, &entry::AuditEntry)) -> Seq<char> {
    sort_key_of(text::opt_text(item.1.publisher))
}

/// `keys`, which ascend, with `key` put in its place unless it is there.
pub open spec fn with_key(keys: Seq<Seq<char>>, key: Seq<char>) -> Seq<Seq<char>>
    decreases keys.len(),
{
    if keys.len() == 0 {
        seq![key]
    } else if ordering::text_lt(keys[0], key) {
        seq![keys[0]] + with_key(keys.drop_first(), key)
    } else if keys[0] == key {
        keys
    } else {
        seq![key] + keys
    }
}

/// The publisher keys of the first `n` books, ascending, each once.
pub open spec fn toc_keys(items: Seq<(usize, &entry::AuditEntry)>, n: nat) -> Seq<Seq<char>>
    decreases n,
{
    if n == 0 {
        Seq::empty()
    } else {
        with_key(toc_keys(items, (n - 1) as nat), item_key(items[n - 1]))
    }
}

/// The books, among the first `n`, of the publisher `key`.
pub open spec fn members(
    items: Seq<(usize, &entry::AuditEntry)>,
    key: Seq<char>,
    n: nat,
) -> Seq<(usize, &entry::AuditEntry)>
    decreases n,
{
    if n == 0 {
        Seq::empty()
    } else {
        let rest = members(items, key, (n - 1) as nat);
        if item_key(items[n - 1]) == key {
            rest.push(items[n - 1])
        } else {
            rest
        }
    }
}

proof fn lemma_with_key_place(keys: Seq<Seq<char>>, key: Seq<char>, i: int)
    requires
        0 <= i <= keys.len(),
        forall|j: int| 0 <= j < i ==> ordering::text_lt(#[trigger] keys[j], key),
        i < keys.len() ==> !ordering::text_lt(keys[i], key),
    ensures
        with_key(keys, key) == (if i < keys.len() && keys[i] == key {
            keys
        } else {
            keys.insert(i, key)
        }),
    decreases keys.len(),
{
    if i > 0 {
        assert(ordering::text_lt(keys[0], key));
        let rest = keys.drop_first();
        assert forall|j: int| 0 <= j < i - 1 implies ordering::text_lt(#[trigger] rest[j], key) by {
            assert(rest[j] == keys[j + 1]);
        }
        lemma_with_key_place(rest, key, i - 1);
        if i < keys.len() && keys[i] == key {
            assert(seq![keys[0]] + rest =~= keys);
        } else {
            assert(seq![keys[0]] + rest.insert(i - 1, key) =~= keys.insert(i, key));
        }
    } else if keys.len() == 0 {
        assert(keys.insert(0, key) =~= seq![key]);
    } else {
        assert(seq![key] + keys =~= keys.insert(0, key));
    }
}

proof fn lemma_with_key_ascends(keys: Seq<Seq<char>>, key: Seq<char>)
    requires
        ascending(keys),
    ensures
        ascending(with_key(keys, key)),
        forall|k: Seq<char>|
            #[trigger] with_key(keys, key).contains(k) <==> keys.contains(k) || k == key,
    decreases keys.len(),
{
    let r = with_key(keys, key);
    if keys.len() == 0 {
        assert(r[0] == key);
        assert(r.contains(key));
    } else if ordering::text_lt(keys[0], key) {
        let rest = keys.drop_first();
        assert(ascending(rest)) by {
            assert forall|i: int, j: int| 0 <= i < j < rest.len() implies ordering::text_lt(
                #[trigger] rest[i],
                #[trigger] rest[j],
            ) by {
                assert(ordering::text_lt(keys[i + 1], keys[j + 1]));
            }
        }
        lemma_with_key_ascends(rest, key);
        let tail = with_key(rest, key);
        assert(r =~= seq![keys[0]] + tail);
        assert forall|k: Seq<char>| #[trigger] r.contains(k) <==> keys.contains(k) || k == key by {
            if r.contains(k) {
                let i = choose|i: int| 0 <= i < r.len() && r[i] == k;
                if i > 0 {
                    assert(tail[i - 1] == k);
                    assert(tail.contains(k));
                    if rest.contains(k) {
                        let j = choose|j: int| 0 <= j < rest.len() && rest[j] == k;
                        assert(keys[j + 1] == k);
                    }
                } else {
                    assert(keys[0] == k);
                }
            }
            if keys.contains(k) {
                let i = choose|i: int| 0 <= i < keys.len() && keys[i] == k;
                if i > 0 {
                    assert(rest[i - 1] == k);
                    assert(tail.contains(k));
                    let j = choose|j: int| 0 <= j < tail.len() && tail[j] == k;
                    assert(r[j + 1] == k);
                } else {
                    assert(r[0] == k);
                }
            }
            if k == key {
                assert(tail.contains(k));
                let j = choose|j: int| 0 <= j < tail.len() && tail[j] == k;
                assert(r[j + 1] == k);
            }
        }
        assert forall|i: int, j: int| 0 <= i < j < r.len() implies ordering::text_lt(
            #[trigger] r[i],
            #[trigger] r[j],
        ) by {
            assert(r[j] == tail[j - 1]);
            if i == 0 {
                assert(tail.contains(tail[j - 1]));
                if rest.contains(tail[j - 1]) {
                    let m = choose|m: int| 0 <= m < rest.len() && rest[m] == tail[j - 1];
                    assert(ordering::text_lt(keys[0], keys[m + 1]));
                }
            } else {
                assert(r[i] == tail[i - 1]);
            }
        }
    } else if keys[0] == key {
        assert(keys.contains(key));
    } else {
        ordering::law_text_order(keys[0], key);
        assert(r =~= seq![key] + keys);
        assert forall|i: int, j: int| 0 <= i < j < r.len() implies ordering::text_lt(
            #[trigger] r[i],
            #[trigger] r[j],
        ) by {
            assert(r[j] == keys[j - 1]);
            if i == 0 {
                if j > 1 {
                    assert(ordering::text_lt(keys[0], keys[j - 1]));
                    ordering::law_text_transitive(key, keys[0], keys[j - 1]);
                }
            } else {
                assert(r[i] == keys[i - 1]);
            }
        }
        assert forall|k: Seq<char>| #[trigger] r.contains(k) <==> keys.contains(k) || k == key by {
            if keys.contains(k) {
                let i = choose|i: int| 0 <= i < keys.len() && keys[i] == k;
                assert(r[i + 1] == k);
            }
            assert(r[0] == key);
            if r.contains(k) {
                let i = choose|i: int| 0 <= i < r.len() && r[i] == k;
                if i > 0 {
                    assert(keys[i - 1] == k);
                }
            }
        }
    }
}

/// Whether texts ascend, none twice.
pub open spec fn ascending(keys: Seq<Seq<char>>) -> bool {
    forall|i: int, j: int|
        0 <= i < j < keys.len() ==> ordering::text_lt(#[trigger] keys[i], #[trigger] keys[j])
}

/// The table of contents lists publishers in ascending order, each once, and
/// leaves out no book's publisher.
pub proof fn law_toc_keys_complete(items: Seq<(usize, &entry::AuditEntry)>, n: nat)
    requires
        n <= items.len(),
    ensures
        ascending(toc_keys(items, n)),
        forall|k: int| 0 <= k < n ==> toc_keys(items, n).contains(item_key(#[trigger] items[k])),
        forall|key: Seq<char>|
            #[trigger] toc_keys(items, n).contains(key) ==> members(items, key, n).len() > 0,
    decreases n,
{
    if n > 0 {
        law_toc_keys_complete(items, (n - 1) as nat);
        lemma_with_key_ascends(toc_keys(items, (n - 1) as nat), item_key(items[n - 1]));
    }
}

/// One line of a publisher's books.
pub open spec fn item_html(item: (usize, &entry::AuditEntry)) -> Seq<char> {
    "    <li><a href=\""@ + page_name(item.0 as nat) + "#"@ + escaped(item.1.slug@) + "\">"@
        + escaped(item.1.title@) + "</a> <span class=\"muted\">p."@ + text::decimal(
        item.0 as nat,
    ) + "</span></li>\n"@
}

/// The lines of the first `n` books.
pub open spec fn items_html(items: Seq<(usize, &entry::AuditEntry)>, n: nat) -> Seq<char>
    decreases n,
{
    if n == 0 {
        Seq::empty()
    } else {
        items_html(items, (n - 1) as nat) + item_html(items[n - 1])
    }
}

/// The badge with the number of seeds of a publisher.
pub open spec fn toc_badge_html(seeds: nat) -> Seq<char> {
    if seeds > 0 {
        " <span class=\"seed-badge\" title=\"known fingerprint seeds for this publisher\">"@
            + text::decimal(seeds) + " seed"@ + plural(seeds) + "</span>"@
    } else {
        Seq::empty()
    }
}

/// The group of one publisher, which has at least one book.
#[verifier::opaque]
pub open spec fn group_html(
    items: Seq<(usize, &entry::AuditEntry)>,
    counts: Seq<SeedCount>,
) -> Seq<char> {
    let publisher = display_of(text::opt_text(items[0].1.publisher));
    "<section class=\"pub-group\">\n  <h2>"@ + escaped(publisher) + " <span class=\"count\">("@
        + text::decimal(items.len()) + " "@ + (if items.len() == 1 {
        "book"@
    } else {
        "books"@
    }) + ")</span>"@ + toc_badge_html(count_of(counts, publisher))
        + "</h2>\n  <ul class=\"book-list\">\n"@ + items_html(items, items.len())
        + "  </ul>\n</section>\n"@
}

/// The groups of the first `n` publishers.
pub open spec fn groups_html(
    items: Seq<(usize, &entry::AuditEntry)>,
    keys: Seq<Seq<char>>,
    counts: Seq<SeedCount>,
    n: nat,
) -> Seq<char>
    decreases n,
{
    if n == 0 {
        Seq::empty()
    } else {
        groups_html(items, keys, counts, (n - 1) as nat) + group_html(
            members(items, keys[n - 1], items.len()),
            counts,
        )
    }
}

/// Whether some book has the publisher label `key`.
pub open spec fn in_corpus(items: Seq<(usize, &entry::AuditEntry)>, key: Seq<char>) -> bool {
    exists|i: int| 0 <= i < items.len() && item_label(#[trigger] items[i]) == key
}

/// Label of a book's publisher.
pub open spec fn item_label(item: (usize, &entry::AuditEntry)) -> Seq<char> {
    display_of(text::opt_text(item.1.publisher))
}

/// The publishers, among the first `n` with seeds, that no book has.
pub open spec fn orphans(
    counts: Seq<SeedCount>,
    items: Seq<(usize, &entry::AuditEntry)>,
    n: nat,
) -> Seq<usize>
    decreases n,
{
    if n == 0 {
        Seq::empty()
    } else {
        let rest = orphans(counts, items, (n - 1) as nat);
        if in_corpus(items, counts[n - 1].publisher@) {
            rest
        } else {
            rest.push((n - 1) as usize)
        }
    }
}

/// The publishers without books are those with seeds whose label no book has.
pub proof fn law_orphans_exact(
    counts: Seq<SeedCount>,
    items: Seq<(usize, &entry::AuditEntry)>,
    n: nat,
    k: usize,
)
    requires
        n <= counts.len() <= usize::MAX,
    ensures
        orphans(counts, items, n).contains(k) <==> k < n && !in_corpus(
            items,
            counts[k as int].publisher@,
        ),
    decreases n,
{
    if n > 0 {
        law_orphans_exact(counts, items, (n - 1) as nat, k);
        let rest = orphans(counts, items, (n - 1) as nat);
        let all = orphans(counts, items, n);
        if all != rest {
            assert(all[rest.len() as int] == (n - 1) as usize);
            if rest.contains(k) {
                let i = choose|i: int| 0 <= i < rest.len() && rest[i] == k;
                assert(all[i] == k);
            }
            if all.contains(k) && k != (n - 1) as usize {
                let i = choose|i: int| 0 <= i < all.len() && all[i] == k;
                assert(rest[i] == k);
            }
        }
    }
}

/// Sort keys of the publishers without books: most seeds first, then by name.
pub open spec fn orphan_keys(counts: Seq<SeedCount>, picked: Seq<usize>) -> Seq<
    ordering::KeyView,
> {
    Seq::new(
        picked.len(),
        |i: int|
            ordering::KeyView {
                rank: u64::MAX - counts[picked[i] as int].count,
                parts: seq![counts[picked[i] as int].publisher@],
            },
    )
}

/// One line of the publishers without books.
pub open spec fn orphan_html(c: SeedCount) -> Seq<char> {
    "    <li>"@ + escaped(c.publisher@) + " <span class=\"muted\">"@ + text::decimal(
        c.count as nat,
    ) + " seed"@ + plural(c.count as nat) + "</span></li>\n"@
}

/// The lines of the first `n` publishers without books.
pub open spec fn orphan_lines_html(
    counts: Seq<SeedCount>,
    picked: Seq<usize>,
    order: Seq<usize>,
    n: nat,
) -> Seq<char>
    decreases n,
{
    if n == 0 {
        Seq::empty()
    } else {
        orphan_lines_html(counts, picked, order, (n - 1) as nat) + orphan_html(
            counts[picked[order[n - 1] as int] as int],
        )
    }
}

/// The section on publishers with seeds but without books.
pub open spec fn orphans_html(
    counts: Seq<SeedCount>,
    items: Seq<(usize, &entry::AuditEntry)>,
) -> Seq<char> {
    let picked = orphans(counts, items, counts.len());
    if picked.len() == 0 {
        Seq::empty()
    } else {
        "<section class=\"pub-group orphans\">\n  <h2>Seeds without books in corpus <span class=\"count\">(seed publishers absent from this corpus)</span></h2>\n  <ul class=\"book-list\">\n"@
            + orphan_lines_html(
            counts,
            picked,
            ordering::order_of(orphan_keys(counts, picked)),
            picked.len(),
        ) + "  </ul>\n</section>\n"@
    }
}

fn toc_badge(seeds: usize) -> (s: String)
    ensures
        s@ == toc_badge_html(seeds as nat),
{
    if seeds > 0 {
        let mut s = text::owned(
            " <span class=\"seed-badge\" title=\"known fingerprint seeds for this publisher\">",
        );
        s.append(text::usize_text(seeds).as_str());
        s.append(" seed");
        s.append(plural_ending(seeds));
        s.append("</span>");
        s
    } else {
        String::new()
    }
}

fn toc_line(page: usize, e: &entry::AuditEntry) -> (s: String)
    ensures
        s@ == item_html((page, e)),
{
    let mut s = text::owned("    <li><a href=\"");
    s.append(page_filename(page).as_str());
    s.append("#");
    s.append(html_escape(e.slug.as_str()).as_str());
    s.append("\">");
    s.append(html_escape(e.title.as_str()).as_str());
    s.append("</a> <span class=\"muted\">p.");
    s.append(text::usize_text(page).as_str());
    s.append("</span></li>\n");
    s
}

fn toc_lines(items: &Vec<(usize, &entry::AuditEntry)>) -> (s: String)
    ensures
        s@ == items_html(items@, items@.len()),
{
    let mut s = String::new();
    let mut i: usize = 0;
    while i < items.len()
        invariant
            i <= items@.len(),
            s@ == items_html(items@, i as nat),
        decreases items@.len() - i,
    {
        let (page, e) = items[i];
        s.append(toc_line(page, e).as_str());
        i = i + 1;
    }
    s
}

fn toc_group(items: &Vec<(usize, &entry::AuditEntry)>, counts: &Vec<SeedCount>) -> (s: String)
    requires
        items@.len() > 0,
    ensures
        s@ == group_html(items@, counts@),
{
    let first = items[0].1;
    let publisher = publisher_display(text::opt_as_str(&first.publisher));
    let seeds: usize = seed_count_for(counts, text::opt_as_str(&first.publisher));
    let mut s = text::owned("<section class=\"pub-group\">\n  <h2>");
    s.append(html_escape(publisher).as_str());
    s.append(" <span class=\"count\">(");
    s.append(text::usize_text(items.len()).as_str());
    s.append(" ");
    if items.len() == 1 {
        s.append("book");
    } else {
        s.append("books");
    }
    s.append(")</span>");
    s.append(toc_badge(seeds).as_str());
    s.append("</h2>\n  <ul class=\"book-list\">\n");
    s.append(toc_lines(items).as_str());
    s.append("  </ul>\n</section>\n");
    proof {
        reveal(group_html);
    }
    s
}

fn collect_items<'a>(pages: &Vec<Vec<&'a entry::AuditEntry>>) -> (items: Vec<
    (usize, &'a entry::AuditEntry),
>)
    ensures
        items@ == toc_items(pages@, pages@.len()),
{
    let mut items: Vec<(usize, &'a entry::AuditEntry)> = Vec::new();
    let mut p: usize = 0;
    while p < pages.len()
        invariant
            p <= pages@.len(),
            items@ == toc_items(pages@, p as nat),
        decreases pages@.len() - p,
    {
        let ghost start = items@;
        let page = &pages[p];
        let mut i: usize = 0;
        proof {
            assert(items@ =~= start + page_items(page@, (p + 1) as usize, 0));
        }
        while i < page.len()
            invariant
                p < pages@.len(),
                pages@.len() <= usize::MAX,
                i <= page@.len(),
                items@ == start + page_items(page@, (p + 1) as usize, i as nat),
            decreases page@.len() - i,
        {
            items.push((p + 1, page[i]));
            i = i + 1;
            proof {
                assert(items@ =~= start + page_items(page@, (p + 1) as usize, i as nat));
            }
        }
        p = p + 1;
    }
    items
}

fn collect_keys(items: &Vec<(usize, &entry::AuditEntry)>) -> (r: (Vec<String>, Vec<String>))
    ensures
        text::texts(r.0@) == toc_keys(items@, items@.len()),
        r.1@.len() == items@.len(),
        forall|i: int| 0 <= i < items@.len() ==> (#[trigger] r.1@[i])@ == item_key(items@[i]),
{
    let mut keys: Vec<String> = Vec::new();
    let mut own: Vec<String> = Vec::new();
    let mut n: usize = 0;
    proof {
        assert(text::texts(keys@) =~= Seq::empty());
    }
    while n < items.len()
        invariant
            n <= items@.len(),
            text::texts(keys@) == toc_keys(items@, n as nat),
            own@.len() == n,
            forall|i: int| 0 <= i < n ==> (#[trigger] own@[i])@ == item_key(items@[i]),
        decreases items@.len() - n,
    {
        let e = items[n].1;
        let key = publisher_sort_key(text::opt_as_str(&e.publisher));
        proof {
            assert(key@ == item_key(items@[n as int]));
        }
        let ghost old_keys = text::texts(keys@);
        let mut i: usize = 0;
        while i < keys.len() && ordering::text_less(keys[i].as_str(), key.as_str())
            invariant
                i <= keys@.len(),
                old_keys == text::texts(keys@),
                forall|j: int| 0 <= j < i ==> ordering::text_lt(#[trigger] old_keys[j], key@),
            decreases keys@.len() - i,
        {
            proof {
                assert(old_keys[i as int] == keys@[i as int]@);
            }
            i = i + 1;
        }
        proof {
            if i < keys@.len() {
                assert(old_keys[i as int] == keys@[i as int]@);
            }
            lemma_with_key_place(old_keys, key@, i as int);
        }
        if !(i < keys.len() && text::same_text(keys[i].as_str(), key.as_str())) {
            let copy = text::owned(key.as_str());
            keys.insert(i, copy);
            proof {
                assert(text::texts(keys@) =~= old_keys.insert(i as int, key@));
            }
        }
        own.push(key);
        n = n + 1;
    }
    (keys, own)
}

fn collect_members<'a>(
    items: &Vec<(usize, &'a entry::AuditEntry)>,
    own: &Vec<String>,
    key: &str,
) -> (r: Vec<(usize, &'a entry::AuditEntry)>)
    requires
        own@.len() == items@.len(),
        forall|i: int| 0 <= i < items@.len() ==> (#[trigger] own@[i])@ == item_key(items@[i]),
    ensures
        r@ == members(items@, key@, items@.len()),
{
    let mut r: Vec<(usize, &'a entry::AuditEntry)> = Vec::new();
    let mut i: usize = 0;
    while i < items.len()
        invariant
            i <= items@.len(),
            own@.len() == items@.len(),
            forall|j: int| 0 <= j < items@.len() ==> (#[trigger] own@[j])@ == item_key(items@[j]),
            r@ == members(items@, key@, i as nat),
        decreases items@.len() - i,
    {
        if text::same_text(own[i].as_str(), key) {
            r.push(items[i]);
        }
        i = i + 1;
    }
    r
}

fn has_label(items: &Vec<(usize, &entry::AuditEntry)>, key: &str) -> (r: bool)
    ensures
        r == in_corpus(items@, key@),
{
    let mut i: usize = 0;
    while i < items.len()
        invariant
            i <= items@.len(),
            forall|j: int| 0 <= j < i ==> item_label(#[trigger] items@[j]) != key@,
        decreases items@.len() - i,
    {
        let e = items[i].1;
        let label = publisher_display(text::opt_as_str(&e.publisher));
        proof {
            assert(label@ == item_label(items@[i as int]));
        }
        if text::same_text(label, key) {
            return true;
        }
        i = i + 1;
    }
    false
}

fn toc_orphans(counts: &Vec<SeedCount>, items: &Vec<(usize, &entry::AuditEntry)>) -> (s: String)
    ensures
        s@ == orphans_html(counts@, items@),
{
    let mut picked: Vec<usize> = Vec::new();
    let mut keys: Vec<ordering::SortKey> = Vec::new();
    let mut i: usize = 0;
    proof {
        assert(ordering::key_views(keys@) =~= orphan_keys(counts@, picked@));
    }
    while i < counts.len()
        invariant
            i <= counts@.len(),
            picked@ == orphans(counts@, items@, i as nat),
            forall|j: int| 0 <= j < picked@.len() ==> #[trigger] picked@[j] < i,
            ordering::key_views(keys@) == orphan_keys(counts@, picked@),
        decreases counts@.len() - i,
    {
        if !has_label(items, counts[i].publisher.as_str()) {
            let ghost old_keys = keys@;
            let ghost old_picked = picked@;
            let mut parts: Vec<String> = Vec::new();
            parts.push(text::owned(counts[i].publisher.as_str()));
            proof {
                assert(text::texts(parts@) =~= seq![counts@[i as int].publisher@]);
            }
            let key = ordering::SortKey { rank: u64::MAX - (counts[i].count as u64), parts };
            proof {
                assert(key@.parts =~= seq![counts@[i as int].publisher@]);
                assert(old_keys.len() == ordering::key_views(old_keys).len());
                assert(old_picked.len() == orphan_keys(counts@, old_picked).len());
            }
            let ghost key_view = key@;
            keys.push(key);
            picked.push(i);
            proof {
                assert(ordering::key_views(keys@) =~= ordering::key_views(old_keys).push(key_view));
                assert(orphan_keys(counts@, picked@) =~= orphan_keys(counts@, old_picked).push(
                    key_view,
                ));
            }
        }
        i = i + 1;
    }
    if picked.len() == 0 {
        return String::new();
    }
    let order = ordering::sorted_positions(&keys);
    let mut lines = String::new();
    let mut n: usize = 0;
    while n < order.len()
        invariant
            n <= order@.len(),
            ordering::stable_order(orphan_keys(counts@, picked@), order@),
            forall|j: int| 0 <= j < picked@.len() ==> #[trigger] picked@[j] < counts@.len(),
            lines@ == orphan_lines_html(counts@, picked@, order@, n as nat),
        decreases order@.len() - n,
    {
        let c = &counts[picked[order[n]]];
        let mut line = text::owned("    <li>");
        line.append(html_escape(c.publisher.as_str()).as_str());
        line.append(" <span class=\"muted\">");
        line.append(text::usize_text(c.count).as_str());
        line.append(" seed");
        line.append(plural_ending(c.count));
        line.append("</span></li>\n");
        lines.append(line.as_str());
        n = n + 1;
    }
    let mut s = text::owned(
        "<section class=\"pub-group orphans\">\n  <h2>Seeds without books in corpus <span class=\"count\">(seed publishers absent from this corpus)</span></h2>\n  <ul class=\"book-list\">\n",
    );
    s.append(lines.as_str());
    s.append("  </ul>\n</section>\n");
    s
}

fn toc_groups(items: &Vec<(usize, &entry::AuditEntry)>, counts: &Vec<SeedCount>) -> (s: String)
    ensures
        s@ == groups_html(
            items@,
            toc_keys(items@, items@.len()),
            counts@,
            toc_keys(items@, items@.len()).len(),
        ),
{
    let (keys, own) = collect_keys(items);
    let ghost ks = toc_keys(items@, items@.len());
    proof {
        law_toc_keys_complete(items@, items@.len());
    }
    let mut groups = String::new();
    let mut n: usize = 0;
    while n < keys.len()
        invariant
            n <= keys@.len(),
            text::texts(keys@) == ks,
            ks == toc_keys(items@, items@.len()),
            own@.len() == items@.len(),
            forall|i: int| 0 <= i < items@.len() ==> (#[trigger] own@[i])@ == item_key(items@[i]),
            forall|key: Seq<char>|
                #[trigger] ks.contains(key) ==> members(items@, key, items@.len()).len() > 0,
            groups@ == groups_html(items@, ks, counts@, n as nat),
        decreases keys@.len() - n,
    {
        let group = collect_members(items, &own, keys[n].as_str());
        proof {
            assert(ks[n as int] == keys@[n as int]@);
            assert(ks.contains(ks[n as int]));
        }
        groups.append(toc_group(&group, counts).as_str());
        n = n + 1;
    }
    groups
}


/// The table of contents.
pub open spec fn toc_html(
    corpus: Seq<char>,
    pages: Seq<Vec<&entry::AuditEntry>>,
    total_books: nat,
    counts: Seq<SeedCount>,
) -> Seq<char> {
    let items = toc_items(pages, pages.len());
    let keys = toc_keys(items, items.len());
    "<!DOCTYPE html>\n<html lang=\"en\">\n<head>\n"@
        + TOC_HEAD@
        + "\n<title>Audiologo audit — "@
        + escaped(corpus)
        + "</title>\n</head>\n<body>\n<header>\n  <h1>Audiologo audit · TOC</h1>\n  <div class=\"meta\">\n    <span>Corpus: <code>"@
        + escaped(corpus)
        + "</code></span>\n    <span>"@
        + text::decimal(total_books)
        + " books · "@
        + text::decimal(pages.len())
        + " pages · "@
        + text::decimal(PAGE_SIZE as nat)
        + "/page</span>\n    <span>"@
        + text::decimal(counts.len())
        + " seed publishers · "@
        + text::decimal(total_of(counts, counts.len()))
        + " fingerprints</span>\n  </div>\n</header>\n<main class=\"toc\">\n"@
        + groups_html(items, keys, counts, keys.len())
        + orphans_html(counts, items)
        + "\n</main>\n</body>\n</html>"@
}

/// Renders the table of contents: every book under its publisher, and the
/// publishers that have seeds but no books.
pub fn render_toc(
    corpus: &str,
    pages: &Vec<Vec<&entry::AuditEntry>>,
    total_books: usize,
    counts: &Vec<SeedCount>,
) -> (s: String)
    requires
        total_of(counts@, counts@.len()) <= usize::MAX,
    ensures
        s@ == toc_html(corpus@, pages@, total_books as nat, counts@),
{
    let items = collect_items(pages);
    let groups = toc_groups(&items, counts);
    let orphan_section = toc_orphans(counts, &items);
    let total: usize = total_seeds(counts);
    let mut s = text::owned("<!DOCTYPE html>\n<html lang=\"en\">\n<head>\n");
    s.append(include_toc_head());
    s.append("\n<title>Audiologo audit — ");
    s.append(html_escape(corpus).as_str());
    s.append("</title>\n</head>\n<body>\n<header>\n  <h1>Audiologo audit · TOC</h1>\n  <div class=\"meta\">\n    <span>Corpus: <code>");
    s.append(html_escape(corpus).as_str());
    s.append("</code></span>\n    <span>");
    s.append(text::usize_text(total_books).as_str());
    s.append(" books · ");
    s.append(text::usize_text(pages.len()).as_str());
    s.append(" pages · ");
    s.append(text::usize_text(PAGE_SIZE).as_str());
    s.append("/page</span>\n    <span>");
    s.append(text::usize_text(counts.len()).as_str());
    s.append(" seed publishers · ");
    s.append(text::usize_text(total).as_str());
    s.append(" fingerprints</span>\n  </div>\n</header>\n<main class=\"toc\">\n");
    s.append(groups.as_str());
    s.append(orphan_section.as_str());
    s.append("\n</main>\n</body>\n</html>");
    s
}

// ── The whole report ───────────────────────────────────────────────

/// Sort keys of books: publisher, then title.
pub open spec fn entry_keys(entries: Seq<entry::AuditEntry>) -> Seq<ordering::KeyView> {
    Seq::new(
        entries.len(),
        |i: int|
            ordering::KeyView {
                rank: 0,
                parts: seq![sort_key_of(text::opt_text(entries[i].publisher)), entries[i].title@],
            },
    )
}

/// Books with a publisher come before those without. The one exception is a
/// publisher whose lower-case form begins with the last sort key itself.
pub proof fn law_publishers_first(entries: Seq<entry::AuditEntry>, i: int, j: int)
    requires
        0 <= i < entries.len(),
        0 <= j < entries.len(),
        has_publisher(text::opt_text(entries[i].publisher)),
        !has_publisher(text::opt_text(entries[j].publisher)),
        !text::begins_with(
            text::lowercased(text::opt_text(entries[i].publisher)->0),
            NO_PUBLISHER_SORT_KEY@,
        ),
    ensures
        ordering::before(entry_keys(entries), i, j),
        ordering::text_lt(
            sort_key_of(text::opt_text(entries[i].publisher)),
            sort_key_of(text::opt_text(entries[j].publisher)),
        ),
{
    law_no_publisher_last(sort_key_of(text::opt_text(entries[i].publisher)));
    lemma_key_first(entries, i, j);
}

proof fn lemma_key_first(entries: Seq<entry::AuditEntry>, i: int, j: int)
    requires
        0 <= i < entries.len(),
        0 <= j < entries.len(),
        ordering::text_lt(sort_key_of(text::opt_text(entries[i].publisher)), sort_key_of(None)),
        !has_publisher(text::opt_text(entries[j].publisher)),
    ensures
        ordering::before(entry_keys(entries), i, j),
{
    let (a, b) = (entry_keys(entries)[i].parts, entry_keys(entries)[j].parts);
    ordering::law_text_order(a[0], b[0]);
    assert(ordering::parts_lt(a, b));
}

/// The books in report order.
pub open spec fn sorted_entries<'a>(entries: Seq<entry::AuditEntry>) -> Seq<
    &'a entry::AuditEntry,
> {
    let order = ordering::order_of(entry_keys(entries));
    Seq::new(order.len(), |i: int| &entries[order[i] as int])
}

/// The report order lists every book once, by publisher and then by title;
/// books that agree in both stay in the order in which they came.
pub proof fn law_report_order(entries: Seq<entry::AuditEntry>)
    requires
        entries.len() <= usize::MAX,
    ensures
        sorted_entries(entries).len() == entries.len(),
        ordering::stable_order(entry_keys(entries), ordering::order_of(entry_keys(entries))),
        forall|i: int|
            0 <= i < entries.len() ==> *(#[trigger] sorted_entries(entries)[i])
                == entries[ordering::order_of(entry_keys(entries))[i] as int],
{
    ordering::law_order_of(entry_keys(entries));
}

/// Whether no book without a publisher stands before one with a publisher.
pub open spec fn publishers_first(sorted: Seq<&entry::AuditEntry>) -> bool {
    forall|m: int, n: int|
        0 <= m < n < sorted.len() && real_publisher(
            text::opt_text((#[trigger] sorted[n]).publisher),
        ) ==> has_publisher(text::opt_text((#[trigger] sorted[m]).publisher))
}

/// The number of pages for `n` books: at least one.
pub open spec fn page_count(n: int) -> int {
    if n == 0 {
        1
    } else {
        (n + 49) / 50
    }
}

/// End of page `p`.
pub open spec fn page_end(n: int, p: int) -> int {
    if 50 * p + 50 < n {
        50 * p + 50
    } else {
        n
    }
}

/// The books of page `p`, counted from 0.
pub open spec fn page_slice(sorted: Seq<&entry::AuditEntry>, p: int) -> Seq<&entry::AuditEntry> {
    sorted.subrange(50 * p, page_end(sorted.len() as int, p))
}

/// Whether `pages` is the pagination of `sorted`.
pub open spec fn paginated(
    pages: Seq<Vec<&entry::AuditEntry>>,
    sorted: Seq<&entry::AuditEntry>,
) -> bool {
    &&& pages.len() == page_count(sorted.len() as int)
    &&& forall|p: int| 0 <= p < pages.len() ==> (#[trigger] pages[p])@ == page_slice(sorted, p)
}

/// Sorts the books and cuts them into pages.
pub fn paginate(entries: &Vec<entry::AuditEntry>) -> (pages: Vec<Vec<&entry::AuditEntry>>)
    ensures
        paginated(pages@, sorted_entries(entries@)),
        sorted_entries(entries@).len() == entries@.len(),
        publishers_first(sorted_entries(entries@)),
{
    let mut keys: Vec<ordering::SortKey> = Vec::new();
    let mut i: usize = 0;
    while i < entries.len()
        invariant
            i <= entries@.len(),
            keys@.len() == i,
            forall|j: int| 0 <= j < i ==> (#[trigger] keys@[j])@ == entry_keys(entries@)[j],
            forall|j: int|
                0 <= j < i && real_publisher(text::opt_text((#[trigger] entries@[j]).publisher))
                    ==> ordering::text_lt(
                    sort_key_of(text::opt_text(entries@[j].publisher)),
                    sort_key_of(None),
                ),
        decreases entries@.len() - i,
    {
        let mut parts: Vec<String> = Vec::new();
        parts.push(publisher_sort_key(text::opt_as_str(&entries[i].publisher)));
        parts.push(text::owned(entries[i].title.as_str()));
        proof {
            assert(text::texts(parts@) =~= entry_keys(entries@)[i as int].parts);
        }
        keys.push(ordering::SortKey { rank: 0, parts });
        i = i + 1;
    }
    proof {
        assert(ordering::key_views(keys@) =~= entry_keys(entries@));
    }
    let order = ordering::sorted_positions(&keys);
    let ghost sorted = sorted_entries(entries@);
    proof {
        assert forall|m: int, n: int|
            0 <= m < n < sorted.len() && real_publisher(
                text::opt_text((#[trigger] sorted[n]).publisher),
            ) implies has_publisher(text::opt_text((#[trigger] sorted[m]).publisher)) by {
            let (a, b) = (order@[m] as int, order@[n] as int);
            assert(*sorted[m] == entries@[a] && *sorted[n] == entries@[b]);
            ordering::law_before_total(entry_keys(entries@), a, b);
            if !has_publisher(text::opt_text(entries@[a].publisher)) {
                lemma_key_first(entries@, b, a);
            }
        }
    }
    let n: usize = order.len();
    let mut pages: Vec<Vec<&entry::AuditEntry>> = Vec::new();
    let mut start: usize = 0;
    while start < n || pages.len() == 0
        invariant
            n == order@.len(),
            n == entries@.len(),
            ordering::stable_order(entry_keys(entries@), order@),
            order@ == ordering::order_of(entry_keys(entries@)),
            sorted == sorted_entries(entries@),
            start <= n,
            start < n ==> start == 50 * pages@.len(),
            pages@.len() == 0 ==> start == 0,
            start == n && pages@.len() > 0 ==> pages@.len() == page_count(n as int),
            50 * pages@.len() < n + 50 || pages@.len() <= 1,
            forall|p: int|
                0 <= p < pages@.len() ==> (#[trigger] pages@[p])@ == page_slice(sorted, p),
        decreases n - start + (if pages@.len() == 0 {
            1int
        } else {
            0int
        }),
    {
        let end: usize = if n - start > 50 {
            start + 50
        } else {
            n
        };
        let mut page: Vec<&entry::AuditEntry> = Vec::new();
        let mut k: usize = start;
        while k < end
            invariant
                start <= k <= end <= n,
                n == order@.len(),
                n == entries@.len(),
                ordering::stable_order(entry_keys(entries@), order@),
                order@ == ordering::order_of(entry_keys(entries@)),
                sorted == sorted_entries(entries@),
                page@ == sorted.subrange(start as int, k as int),
            decreases end - k,
        {
            page.push(&entries[order[k]]);
            k = k + 1;
            proof {
                assert(page@ =~= sorted.subrange(start as int, k as int));
            }
        }
        pages.push(page);
        start = end;
    }
    pages
}

/// Every book stands on one page: book `i` in report order is book `i % 50`
/// of page `i / 50`, and no page holds more than 50.
pub proof fn law_pages_cover(sorted: Seq<&entry::AuditEntry>, i: int, p: int)
    requires
        0 <= i < sorted.len(),
        0 <= p < page_count(sorted.len() as int),
    ensures
        0 <= i / 50 < page_count(sorted.len() as int),
        i % 50 < page_slice(sorted, i / 50).len(),
        page_slice(sorted, i / 50)[i % 50] == sorted[i],
        page_slice(sorted, p).len() <= 50,
{
}

/// The publishers with seeds in the order in which they are reported: most
/// seeds first, then by name.
pub fn tally_order(counts: &Vec<SeedCount>) -> (order: Vec<usize>)
    ensures
        ordering::stable_order(
            orphan_keys(counts@, Seq::new(counts@.len(), |i: int| i as usize)),
            order@,
        ),
        order@ == ordering::order_of(
            orphan_keys(counts@, Seq::new(counts@.len(), |i: int| i as usize)),
        ),
{
    let ghost all = Seq::new(counts@.len(), |i: int| i as usize);
    let mut keys: Vec<ordering::SortKey> = Vec::new();
    let n: usize = counts.len();
    let mut i: usize = 0;
    while i < n
        invariant
            i <= n,
            n == counts@.len(),
            all == Seq::new(counts@.len(), |i: int| i as usize),
            keys@.len() == i,
            forall|j: int| 0 <= j < i ==> (#[trigger] keys@[j])@ == orphan_keys(counts@, all)[j],
        decreases n - i,
    {
        let mut parts: Vec<String> = Vec::new();
        parts.push(text::owned(counts[i].publisher.as_str()));
        proof {
            assert(all[i as int] == i);
            assert(text::texts(parts@) =~= seq![counts@[i as int].publisher@]);
        }
        keys.push(ordering::SortKey { rank: u64::MAX - (counts[i].count as u64), parts });
        i = i + 1;
    }
    proof {
        assert(ordering::key_views(keys@) =~= orphan_keys(counts@, all));
    }
    ordering::sorted_positions(&keys)
}

/// One file of the report.
#[derive(Debug)]
pub struct ReportFile {
    /// Its name.
    pub name: String,
    /// Its content.
    pub html: String,
}

/// The page files and the table of contents.
#[derive(Debug)]
pub struct Report {
    /// The page files, in order.
    pub pages: Vec<ReportFile>,
    /// The table of contents.
    pub toc: String,
    /// The number of books.
    pub total_books: usize,
    /// The number of pages.
    pub total_pages: usize,
    /// The number of different publisher tags of the seeds.
    pub seed_publishers: usize,
}

/// Builds every HTML file of the report.
pub fn build_report(
    corpus: &str,
    entries: &Vec<entry::AuditEntry>,
    seeds: &seed::SeedDb,
) -> (r: Report)
    ensures
        r.total_books == entries@.len(),
        r.total_pages == page_count(entries@.len() as int),
        r.pages@.len() == r.total_pages,
        publishers_first(sorted_entries(entries@)),
        exists|groups: Seq<seed::PublisherGroup>|
            #[trigger] seed::grouped(groups, seeds.fingerprints@, seeds.fingerprints@.len())
                && r.seed_publishers == groups.len(),
        exists|pages: Seq<Vec<&entry::AuditEntry>>, counts: Seq<SeedCount>|
            {
                &&& #[trigger] counted(counts, seeds.fingerprints@)
                &&& #[trigger] paginated(pages, sorted_entries(entries@))
                &&& r.toc@ == toc_html(corpus@, pages, entries@.len(), counts)
                &&& forall|p: int|
                    0 <= p < r.pages@.len() ==> (#[trigger] r.pages@[p]).name@ == page_name(
                        (p + 1) as nat,
                    ) && r.pages@[p].html@ == page_html(
                        corpus@,
                        page_slice(sorted_entries(entries@), p),
                        (p + 1) as nat,
                        r.total_pages as nat,
                        counts,
                    )
            },
{
    let groups = seeds.group_by_publisher();
    let counts = seed_publisher_counts(seeds);
    let seed_total: usize = seeds.len();
    proof {
        law_counts_add_up(counts@, seeds.fingerprints@);
        assert(total_of(counts@, counts@.len()) == seed_total);
    }
    let pages = paginate(entries);
    let total_pages: usize = pages.len();
    let mut files: Vec<ReportFile> = Vec::new();
    let mut p: usize = 0;
    while p < total_pages
        invariant
            p <= total_pages,
            total_pages == pages@.len(),
            files@.len() == p,
            paginated(pages@, sorted_entries(entries@)),
            forall|q: int|
                0 <= q < p ==> (#[trigger] files@[q]).name@ == page_name((q + 1) as nat)
                    && files@[q].html@ == page_html(
                    corpus@,
                    page_slice(sorted_entries(entries@), q),
                    (q + 1) as nat,
                    total_pages as nat,
                    counts@,
                ),
        decreases total_pages - p,
    {
        let html = render_page(corpus, &pages[p], p + 1, total_pages, &counts);
        files.push(ReportFile { name: page_filename(p + 1), html });
        p = p + 1;
    }
    let toc = render_toc(corpus, &pages, entries.len(), &counts);
    Report {
        pages: files,
        toc,
        total_books: entries.len(),
        total_pages,
        seed_publishers: groups.len(),
    }
}

} // verus!
