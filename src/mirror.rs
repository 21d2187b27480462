//! What the live mirror reads from the reader: a fingerprint of what is
//! focused, and a projection of the focused message.
use vstd::prelude::*;
use vstd::string::*;
use crate::app::App;
use crate::email::Email;
use crate::text::{append_str, chars_of, decimal, has_prefix, push_char, push_decimal};
use crate::view::ActivePane;
use vstd::view::View as HasView;

verus! {

/// The HTML form of one character.
pub open spec fn html_entity(c: char) -> Seq<char> {
    if c == '&' {
        "&amp;"@
    } else if c == '<' {
        "&lt;"@
    } else if c == '>' {
        "&gt;"@
    } else if c == '"' {
        "&quot;"@
    } else if c == '\'' {
        "&#x27;"@
    } else {
        seq![c]
    }
}

/// `s` with the HTML special characters replaced by entities.
pub open spec fn spec_escape_html(s: Seq<char>) -> Seq<char>
    decreases s.len(),
{
    if s.len() == 0 {
        Seq::empty()
    } else {
        spec_escape_html(s.drop_last()) + html_entity(s.last())
    }
}

fn push_escaped(out: &mut String, cs: &Vec<char>, from: usize, to: usize)
    requires
        from <= to <= cs@.len(),
    ensures
        final(out)@ == old(out)@ + spec_escape_html(cs@.subrange(from as int, to as int)),
{
    let mut i: usize = from;
    assert(cs@.subrange(from as int, from as int) == Seq::<char>::empty());
    while i < to
        invariant
            from <= i <= to <= cs@.len(),
            out@ == old(out)@ + spec_escape_html(cs@.subrange(from as int, i as int)),
        decreases to - i,
    {
        let c = cs[i];
        let ghost before = out@;
        if c == '&' {
            append_str(out, "&amp;");
        } else if c == '<' {
            append_str(out, "&lt;");
        } else if c == '>' {
            append_str(out, "&gt;");
        } else if c == '"' {
            append_str(out, "&quot;");
        } else if c == '\'' {
            append_str(out, "&#x27;");
        } else {
            push_char(out, c);
            assert(out@ == before + seq![c]);
        }
        let ghost t = cs@.subrange(from as int, i + 1);
        assert(t.drop_last() == cs@.subrange(from as int, i as int));
        assert(out@ =~= old(out)@ + spec_escape_html(t));
        i = i + 1;
    }
}

/// Escapes `&`, `<`, `>`, `"` and `'` for HTML.
pub fn escape_html(text: &str) -> (r: String)
    ensures
        r@ == spec_escape_html(text@),
{
    let cs = chars_of(text);
    let mut r = String::new();
    push_escaped(&mut r, &cs, 0, cs.len());
    assert(cs@.subrange(0, cs@.len() as int) == cs@);
    r
}

/// How many times a size is divided by 1024 before it is shown: as many
/// as keep it at least 1, up to gigabytes.
pub open spec fn size_unit(b: nat) -> nat {
    if b >= 1024 * 1024 * 1024 { 3 } else if b >= 1024 * 1024 { 2 } else if b >= 1024 { 1 } else { 0 }
}

pub open spec fn unit_scale(u: nat) -> nat {
    if u == 3 { 1024 * 1024 * 1024 } else if u == 2 { 1024 * 1024 } else if u == 1 { 1024 } else { 1 }
}

pub open spec fn unit_name(u: nat) -> Seq<char> {
    if u == 3 { "GB"@ } else if u == 2 { "MB"@ } else if u == 1 { "KB"@ } else { "B"@ }
}

/// `n / d` rounded to the nearest integer, ties to even.
pub open spec fn div_round_even(n: nat, d: nat) -> nat
    recommends
        d > 0,
{
    let q = n / d;
    let r = n % d;
    if 2 * r > d || (2 * r == d && q % 2 == 1) { q + 1 } else { q }
}

/// A byte count for people: `512 B`, or one decimal place of the largest
/// unit that keeps the number at least 1 (`1.5 KB`), rounding half to
/// even.
pub open spec fn spec_file_size(b: nat) -> Seq<char> {
    let u = size_unit(b);
    if u == 0 {
        decimal(b) + " B"@
    } else {
        let t = div_round_even(b * 10, unit_scale(u));
        decimal(t / 10) + "."@ + decimal(t % 10) + " "@ + unit_name(u)
    }
}

pub fn format_file_size(bytes: usize) -> (r: String)
    ensures
        r@ == spec_file_size(bytes as nat),
{
    let b = bytes as u128;
    let (scale, unit): (u128, &str) = if b >= 1024 * 1024 * 1024 {
        (1024 * 1024 * 1024, "GB")
    } else if b >= 1024 * 1024 {
        (1024 * 1024, "MB")
    } else if b >= 1024 {
        (1024, "KB")
    } else {
        (1, "B")
    };
    let mut r = String::new();
    if scale == 1 {
        push_decimal(&mut r, bytes);
        append_str(&mut r, " B");
        return r;
    }
    let n: u128 = b * 10;
    let q = n / scale;
    let rem = n % scale;
    let t: u128 = if 2 * rem > scale || (2 * rem == scale && q % 2 == 1) { q + 1 } else { q };
    proof {
        vstd::arithmetic::div_mod::lemma_div_is_ordered_by_denominator(n as int, 1, scale as int);
        assert(n / 1 == n);
    }
    assert(t / 10 <= b) by (nonlinear_arith)
        requires t <= q + 1, q <= n, n == b * 10;
    push_decimal(&mut r, (t / 10) as usize);
    append_str(&mut r, ".");
    push_decimal(&mut r, (t % 10) as usize);
    append_str(&mut r, " ");
    append_str(&mut r, unit);
    r
}

/// Whitespace as `char::is_whitespace` has it (Unicode `White_Space`).
pub open spec fn is_white(c: char) -> bool {
    let u = c as u32;
    (0x9 <= u && u <= 0xD) || u == 0x20 || u == 0x85 || u == 0xA0 || u == 0x1680 || (0x2000 <= u && u <= 0x200A)
        || u == 0x2028 || u == 0x2029 || u == 0x202F || u == 0x205F || u == 0x3000
}

fn is_white_exec(c: char) -> (r: bool)
    ensures
        r == is_white(c),
{
    let u = c as u32;
    (0x9 <= u && u <= 0xD) || u == 0x20 || u == 0x85 || u == 0xA0 || u == 0x1680 || (0x2000 <= u && u <= 0x200A)
        || u == 0x2028 || u == 0x2029 || u == 0x202F || u == 0x205F || u == 0x3000
}

/// The lines of `s` read so far after `n` characters: the finished lines
/// and the line being read. A line ends at `\n`, and a `\r` just before
/// it is dropped.
pub open spec fn lines_upto(s: Seq<char>, n: nat) -> (Seq<Seq<char>>, Seq<char>)
    decreases n,
{
    if n == 0 || n > s.len() {
        (Seq::empty(), Seq::empty())
    } else {
        let (done, cur) = lines_upto(s, (n - 1) as nat);
        if s[n - 1] == '\n' {
            (done.push(strip_cr(cur)), Seq::empty())
        } else {
            (done, cur.push(s[n - 1]))
        }
    }
}

pub open spec fn strip_cr(l: Seq<char>) -> Seq<char> {
    if l.len() > 0 && l.last() == '\r' { l.drop_last() } else { l }
}

/// The lines of `s`, as `str::lines` gives them: the last line needs no
/// line end, and no empty line follows a final line end.
pub open spec fn lines_of(s: Seq<char>) -> Seq<Seq<char>> {
    let (done, cur) = lines_upto(s, s.len());
    if cur.len() > 0 { done.push(cur) } else { done }
}

/// The position of the first character of `l` that is not whitespace, or
/// the length.
pub open spec fn trim_start_at(l: Seq<char>, i: nat) -> nat
    decreases l.len() - i,
{
    if i >= l.len() { l.len() } else if is_white(l[i as int]) { trim_start_at(l, i + 1) } else { i }
}

/// The position after the last character of `l` before `j` that is not
/// whitespace, or 0.
pub open spec fn trim_end_at(l: Seq<char>, j: nat) -> nat
    decreases j,
{
    if j == 0 || j > l.len() { 0 } else if is_white(l[j - 1]) { trim_end_at(l, (j - 1) as nat) } else { j }
}

/// `l` without leading and trailing whitespace.
pub open spec fn trimmed(l: Seq<char>) -> Seq<char> {
    let a = trim_start_at(l, 0);
    let b = trim_end_at(l, l.len());
    if a < b { l.subrange(a as int, b as int) } else { Seq::empty() }
}

pub open spec fn close_paragraph(open: bool) -> Seq<char> {
    if open { "</p>\n"@ } else { Seq::empty() }
}

/// The HTML for one trimmed line, and whether a paragraph is open after
/// it: a blank line closes the paragraph; `# `, `## `, `### ` make
/// headings and `- ` or `* ` a list item, each closing the paragraph;
/// other lines join the open paragraph with `<br>` or start one.
pub open spec fn line_html(t: Seq<char>, open: bool) -> (Seq<char>, bool) {
    if t.len() == 0 {
        (close_paragraph(open), false)
    } else if has_prefix(t, "# "@) {
        (close_paragraph(open) + "<h1>"@ + spec_escape_html(t.skip(2)) + "</h1>\n"@, false)
    } else if has_prefix(t, "## "@) {
        (close_paragraph(open) + "<h2>"@ + spec_escape_html(t.skip(3)) + "</h2>\n"@, false)
    } else if has_prefix(t, "### "@) {
        (close_paragraph(open) + "<h3>"@ + spec_escape_html(t.skip(4)) + "</h3>\n"@, false)
    } else if has_prefix(t, "- "@) || has_prefix(t, "* "@) {
        (close_paragraph(open) + "<ul><li>"@ + spec_escape_html(t.skip(2)) + "</li></ul>\n"@, false)
    } else {
        ((if open { "<br>"@ } else { "<p>"@ }) + spec_escape_html(t), true)
    }
}

/// The HTML for the first `n` lines, and whether a paragraph is open.
pub open spec fn lines_html(ls: Seq<Seq<char>>, n: nat) -> (Seq<char>, bool)
    decreases n,
{
    if n == 0 || n > ls.len() {
        (Seq::empty(), false)
    } else {
        let (h, open) = lines_html(ls, (n - 1) as nat);
        let (x, open2) = line_html(trimmed(ls[n - 1]), open);
        (h + x, open2)
    }
}

/// A plain-text body as simple HTML.
pub open spec fn spec_markdown_to_html(s: Seq<char>) -> Seq<char> {
    let ls = lines_of(s);
    let (h, open) = lines_html(ls, ls.len());
    h + close_paragraph(open)
}

fn split_lines(cs: &Vec<char>) -> (r: Vec<Vec<char>>)
    ensures
        r@.len() == lines_of(cs@).len(),
        forall|i: int| 0 <= i < r@.len() ==> (#[trigger] r@[i])@ == lines_of(cs@)[i],
{
    let mut done: Vec<Vec<char>> = Vec::new();
    let mut cur: Vec<char> = Vec::new();
    let mut i: usize = 0;
    while i < cs.len()
        invariant
            i <= cs@.len(),
            done@.len() == lines_upto(cs@, i as nat).0.len(),
            forall|k: int| 0 <= k < done@.len() ==> (#[trigger] done@[k])@ == lines_upto(cs@, i as nat).0[k],
            cur@ == lines_upto(cs@, i as nat).1,
        decreases cs@.len() - i,
    {
        let c = cs[i];
        if c == '\n' {
            if cur.len() > 0 && cur[cur.len() - 1] == '\r' {
                cur.pop();
            }
            let mut line: Vec<char> = Vec::new();
            std::mem::swap(&mut line, &mut cur);
            done.push(line);
        } else {
            cur.push(c);
        }
        i = i + 1;
    }
    if cur.len() > 0 {
        done.push(cur);
    }
    done
}

fn trim_bounds(l: &Vec<char>) -> (r: (usize, usize))
    ensures
        r.0 <= r.1 <= l@.len(),
        l@.subrange(r.0 as int, r.1 as int) == trimmed(l@),
{
    let mut a: usize = 0;
    while a < l.len() && is_white_exec(l[a])
        invariant
            a <= l@.len(),
            trim_start_at(l@, 0) == trim_start_at(l@, a as nat),
        decreases l@.len() - a,
    {
        a = a + 1;
    }
    let mut b: usize = l.len();
    while b > 0 && is_white_exec(l[b - 1])
        invariant
            b <= l@.len(),
            trim_end_at(l@, l@.len()) == trim_end_at(l@, b as nat),
        decreases b,
    {
        b = b - 1;
    }
    if a < b {
        (a, b)
    } else {
        (0, 0)
    }
}

fn has_prefix_at(l: &Vec<char>, from: usize, to: usize, p: &str) -> (r: bool)
    requires
        from <= to <= l@.len(),
    ensures
        r == has_prefix(l@.subrange(from as int, to as int), p@),
{
    let pc = chars_of(p);
    let ghost t = l@.subrange(from as int, to as int);
    if pc.len() > to - from {
        return false;
    }
    let mut i: usize = 0;
    while i < pc.len()
        invariant
            pc@ == p@,
            t == l@.subrange(from as int, to as int),
            from <= to <= l@.len(),
            pc@.len() <= to - from,
            i <= pc@.len(),
            forall|k: int| 0 <= k < i ==> l@[from + k] == pc@[k],
        decreases pc@.len() - i,
    {
        if l[from + i] != pc[i] {
            assert(t.subrange(0, p@.len() as int)[i as int] != p@[i as int]);
            return false;
        }
        i = i + 1;
    }
    assert(t.subrange(0, p@.len() as int) =~= p@);
    true
}

/// Appends the HTML element `<tag>` around the escaped characters
/// `l[from..to]`, closing an open paragraph first.
fn push_block(html: &mut String, open: bool, start_tag: &str, l: &Vec<char>, from: usize, to: usize, end_tag: &str)
    requires
        from <= to <= l@.len(),
    ensures
        final(html)@ == old(html)@ + close_paragraph(open) + start_tag@ + spec_escape_html(l@.subrange(from as int, to as int)) + end_tag@,
{
    if open {
        append_str(html, "</p>\n");
    }
    append_str(html, start_tag);
    push_escaped(html, l, from, to);
    append_str(html, end_tag);
}

/// Turns a plain-text body into simple HTML (see `spec_markdown_to_html`).
#[verifier::spinoff_prover]
#[verifier::rlimit(50)]
pub fn markdown_to_html(markdown: &str) -> (r: String)
    ensures
        r@ == spec_markdown_to_html(markdown@),
{
    let cs = chars_of(markdown);
    let lines = split_lines(&cs);
    let ghost ls = lines_of(markdown@);
    let mut html = String::new();
    let mut open = false;
    let mut k: usize = 0;
    while k < lines.len()
        invariant
            ls == lines_of(markdown@),
            cs@ == markdown@,
            lines@.len() == ls.len(),
            forall|i: int| 0 <= i < lines@.len() ==> (#[trigger] lines@[i])@ == ls[i],
            k <= lines@.len(),
            (html@, open) == lines_html(ls, k as nat),
        decreases lines@.len() - k,
    {
        proof {
            reveal_strlit("# ");
            reveal_strlit("## ");
            reveal_strlit("### ");
            reveal_strlit("- ");
            reveal_strlit("* ");
        }
        let l = &lines[k];
        let (a, b) = trim_bounds(l);
        let ghost t = l@.subrange(a as int, b as int);
        let ghost h0 = html@;
        let ghost o0 = open;
        assert(t == trimmed(ls[k as int]));
        if a == b {
            if open {
                append_str(&mut html, "</p>\n");
            }
            open = false;
        } else if has_prefix_at(l, a, b, "# ") {
            assert(t.skip(2) =~= l@.subrange(a + 2, b as int));
            push_block(&mut html, open, "<h1>", l, a + 2, b, "</h1>\n");
            open = false;
        } else if has_prefix_at(l, a, b, "## ") {
            assert(t.skip(3) =~= l@.subrange(a + 3, b as int));
            push_block(&mut html, open, "<h2>", l, a + 3, b, "</h2>\n");
            open = false;
        } else if has_prefix_at(l, a, b, "### ") {
            assert(t.skip(4) =~= l@.subrange(a + 4, b as int));
            push_block(&mut html, open, "<h3>", l, a + 4, b, "</h3>\n");
            open = false;
        } else if has_prefix_at(l, a, b, "- ") || has_prefix_at(l, a, b, "* ") {
            assert(t.skip(2) =~= l@.subrange(a + 2, b as int));
            push_block(&mut html, open, "<ul><li>", l, a + 2, b, "</li></ul>\n");
            open = false;
        } else {
            if open {
                append_str(&mut html, "<br>");
            } else {
                append_str(&mut html, "<p>");
            }
            open = true;
            push_escaped(&mut html, l, a, b);
        }
        assert(lines_html(ls, (k + 1) as nat) == (h0 + line_html(t, o0).0, line_html(t, o0).1));
        assert(html@ =~= h0 + line_html(t, o0).0);
        k = k + 1;
    }
    if open {
        append_str(&mut html, "</p>\n");
    }
    html
}

/// The fingerprint of what the mirror shows:
/// `folder index:message index:whether a message is shown`.
pub open spec fn spec_fingerprint(folder_index: usize, email_index: usize, has_email: bool) -> Seq<char> {
    decimal(folder_index as nat) + ":"@ + decimal(email_index as nat) + ":"@ + if has_email { "true"@ } else { "false"@ }
}

pub fn fingerprint(app: &App) -> (r: String)
    ensures
        r@ == spec_fingerprint(app.selection.folder_index, app.selection.email_index,
            app.active_pane != ActivePane::Folders && app.email_store.selected_spec() is Some),
{
    let has = app.get_current_email_for_web().is_some();
    let mut r = String::new();
    push_decimal(&mut r, app.selection.folder_index);
    append_str(&mut r, ":");
    push_decimal(&mut r, app.selection.email_index);
    append_str(&mut r, ":");
    append_str(&mut r, if has { "true" } else { "false" });
    r
}

/// One poll of the mirror: a change is pushed only when the current
/// fingerprint differs from the last one pushed. Returns whether to push,
/// and the fingerprint to compare the next poll with.
pub fn fingerprint_step(last: Option<String>, current: String) -> (r: (bool, Option<String>))
    ensures
        r.0 == !(last matches Some(l) && l@ == current@),
        r.0 ==> r.1 == Some(current),
        !r.0 ==> r.1 == last,
{
    let changed = match &last {
        Some(l) => !(*l == current),
        None => true,
    };
    if changed {
        (true, Some(current))
    } else {
        (false, last)
    }
}

/// One attachment as the mirror lists it.
#[derive(Clone, Debug)]
pub struct AttachmentSummary {
    pub filename: String,
    pub content_type: String,
    /// The size for people, as `format_file_size` writes it.
    pub size: String,
}

/// The focused message as the mirror shows it.
#[derive(Clone, Debug)]
pub struct EmailProjection {
    pub has_email: bool,
    pub subject: String,
    pub from: String,
    pub to: String,
    pub date: String,
    /// The HTML body, or the text body turned into HTML.
    pub body_html: String,
    pub attachments: Vec<AttachmentSummary>,
    /// The fingerprint at the time of the projection.
    pub email_id: String,
}

/// The body the mirror shows for `e`.
pub open spec fn shown_body(e: Email) -> Seq<char> {
    match e.body_html {
        Some(h) => h@,
        None => spec_markdown_to_html(e.body_text@),
    }
}

/// The projection of the message the mirror shows: empty fields and no
/// attachments when there is none.
pub fn current_email_projection(app: &App) -> (r: EmailProjection)
    ensures
        r.email_id@ == spec_fingerprint(app.selection.folder_index, app.selection.email_index, r.has_email),
        r.has_email == (app.active_pane != ActivePane::Folders && app.email_store.selected_spec() is Some),
        !r.has_email ==> r.subject@.len() == 0 && r.from@.len() == 0 && r.to@.len() == 0 && r.date@.len() == 0
            && r.body_html@.len() == 0 && r.attachments@.len() == 0,
        r.has_email ==> {
            let e = app.email_store.selected_spec()->Some_0;
            &&& r.subject@ == e.headers.subject@
            &&& r.from@ == e.headers.from@
            &&& r.to@ == e.headers.to@
            &&& r.date@ == e.headers.date@
            &&& r.body_html@ == shown_body(e)
            &&& r.attachments@.len() == e.attachments@.len()
            &&& forall|i: int| 0 <= i < r.attachments@.len() ==> {
                &&& (#[trigger] r.attachments@[i]).filename@ == e.attachments@[i].filename@
                &&& r.attachments@[i].content_type@ == e.attachments@[i].content_type@
                &&& r.attachments@[i].size@ == spec_file_size(e.attachments@[i].size as nat)
            }
        },
{
    let email_id = fingerprint(app);
    match app.get_current_email_for_web() {
        None => EmailProjection {
            has_email: false,
            subject: String::new(),
            from: String::new(),
            to: String::new(),
            date: String::new(),
            body_html: String::new(),
            attachments: Vec::new(),
            email_id,
        },
        Some(email) => {
            let body_html = match &email.body_html {
                Some(h) => h.clone(),
                None => markdown_to_html(email.body_text.as_str()),
            };
            let mut attachments: Vec<AttachmentSummary> = Vec::new();
            let mut i: usize = 0;
            while i < email.attachments.len()
                invariant
                    i <= email.attachments@.len(),
                    attachments@.len() == i,
                    forall|k: int| 0 <= k < i ==> {
                        &&& (#[trigger] attachments@[k]).filename@ == email.attachments@[k].filename@
                        &&& attachments@[k].content_type@ == email.attachments@[k].content_type@
                        &&& attachments@[k].size@ == spec_file_size(email.attachments@[k].size as nat)
                    },
                decreases email.attachments@.len() - i,
            {
                let a = &email.attachments[i];
                attachments.push(AttachmentSummary {
                    filename: a.filename.clone(),
                    content_type: a.content_type.clone(),
                    size: format_file_size(a.size),
                });
                i = i + 1;
            }
            EmailProjection {
                has_email: true,
                subject: email.headers.subject.clone(),
                from: email.headers.from.clone(),
                to: email.headers.to.clone(),
                date: email.headers.date.clone(),
                body_html,
                attachments,
                email_id,
            }
        },
    }
}

} // verus!
