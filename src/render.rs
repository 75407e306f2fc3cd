//! The published site: the dashboard and one history page per service.
use vstd::prelude::*;
use vstd::string::*;
use crate::history::Check;
use crate::service::{Service, ServiceGroup, page_name, page_name_spec};
use crate::text::{decimal, decimal_text};

verus! {

/// How `c` is written in HTML text.
pub open spec fn escape_char(c: char) -> Seq<char> {
    if c == '&' {
        "&amp;"@
    } else if c == '<' {
        "&lt;"@
    } else if c == '>' {
        "&gt;"@
    } else if c == '"' {
        "&quot;"@
    } else if c == '\'' {
        "&#x27;"@
    } else {
        seq![c]
    }
}

/// `s` written as HTML text.
pub open spec fn escaped(s: Seq<char>) -> Seq<char>
    decreases s.len(),
{
    if s.len() == 0 {
        Seq::empty()
    } else {
        escaped(s.drop_last()) + escape_char(s.last())
    }
}

/// The word shown for a status.
pub open spec fn status_word(up: bool) -> Seq<char> {
    if up { "up"@ } else { "down"@ }
}

/// The dashboard line of one service, linking to its history page.
pub open spec fn service_line(s: Service) -> Seq<char> {
    "<li class=\""@ + status_word(s.up) + "\"><a href=\"history/"@ + escaped(page_name_spec(s.name@))
        + ".html\">"@ + escaped(s.name@) + "</a>: "@ + status_word(s.up) + "</li>\n"@
}

/// The dashboard lines of `services`, in order.
pub open spec fn service_lines(services: Seq<Service>) -> Seq<char>
    decreases services.len(),
{
    if services.len() == 0 {
        Seq::empty()
    } else {
        service_lines(services.drop_last()) + service_line(services.last())
    }
}

/// The dashboard section of one group.
pub open spec fn group_block(g: ServiceGroup) -> Seq<char> {
    "<h2>"@ + escaped(g.title@) + "</h2>\n<ul>\n"@ + service_lines(g.services@) + "</ul>\n"@
}

/// The dashboard sections of `groups`, in order.
pub open spec fn group_blocks(groups: Seq<ServiceGroup>) -> Seq<char>
    decreases groups.len(),
{
    if groups.len() == 0 {
        Seq::empty()
    } else {
        group_blocks(groups.drop_last()) + group_block(groups.last())
    }
}

/// The dashboard document.
pub open spec fn dashboard_doc(groups: Seq<ServiceGroup>, last_updated: Seq<char>, frequency: nat) -> Seq<char> {
    "<!DOCTYPE html>\n<html>\n<head><title>Service status</title></head>\n<body>\n<h1>Service status</h1>\n<p>Last updated: "@
        + escaped(last_updated) + "</p>\n<p>Checked every "@ + decimal(frequency) + " seconds</p>\n"@
        + group_blocks(groups) + "</body>\n</html>\n"@
}

/// The history page line of one check.
pub open spec fn check_row(c: Check) -> Seq<char> {
    "<tr><td>"@ + escaped(c.timestamp@) + "</td><td>"@ + status_word(c.status) + "</td></tr>\n"@
}

/// The history page lines of `checks`, oldest first.
pub open spec fn check_rows(checks: Seq<Check>) -> Seq<char>
    decreases checks.len(),
{
    if checks.len() == 0 {
        Seq::empty()
    } else {
        check_rows(checks.drop_last()) + check_row(checks.last())
    }
}

/// The history page of the service `name`.
pub open spec fn history_doc(name: Seq<char>, up: bool, checks: Seq<Check>) -> Seq<char> {
    "<!DOCTYPE html>\n<html>\n<head><title>"@ + escaped(name) + "</title></head>\n<body>\n<h1>"@ + escaped(name)
        + "</h1>\n<p>Now: "@ + status_word(up) + "</p>\n<table>\n"@ + check_rows(checks)
        + "</table>\n</body>\n</html>\n"@
}

/// Path of the history page of the service `name`, relative to the output directory.
pub open spec fn history_path_spec(name: Seq<char>) -> Seq<char> {
    "history/"@ + page_name_spec(name) + ".html"@
}

/// Append `s`, written as HTML text, to `out`.
fn push_escaped(out: &mut String, s: &str)
    ensures
        final(out)@ == old(out)@ + escaped(s@),
{
    let n = s.unicode_len();
    let mut i: usize = 0;
    while i < n
        invariant
            n == s@.len(),
            i <= n,
            out@ == old(out)@ + escaped(s@.subrange(0, i as int)),
        decreases n - i,
    {
        let c = s.get_char(i);
        let ghost before = out@;
        if c == '&' {
            out.append("&amp;");
        } else if c == '<' {
            out.append("&lt;");
        } else if c == '>' {
            out.append("&gt;");
        } else if c == '"' {
            out.append("&quot;");
        } else if c == '\'' {
            out.append("&#x27;");
        } else {
            out.append(s.substring_char(i, i + 1));
            assert(s@.subrange(i as int, i + 1) =~= seq![c]);
        }
        assert(s@.subrange(0, i + 1).drop_last() =~= s@.subrange(0, i as int));
        assert(out@ =~= old(out)@ + escaped(s@.subrange(0, i + 1)));
        i += 1;
    }
    assert(s@.subrange(0, n as int) =~= s@);
}

/// Append the word for `up`.
fn push_status(out: &mut String, up: bool)
    ensures
        final(out)@ == old(out)@ + status_word(up),
{
    if up {
        out.append("up");
    } else {
        out.append("down");
    }
}

/// Append the dashboard lines of `services`.
fn push_service_lines(out: &mut String, services: &Vec<Service>)
    ensures
        final(out)@ == old(out)@ + service_lines(services@),
{
    let mut i: usize = 0;
    while i < services.len()
        invariant
            i <= services.len(),
            out@ == old(out)@ + service_lines(services@.subrange(0, i as int)),
        decreases services.len() - i,
    {
        let s = &services[i];
        let ghost before = out@;
        out.append("<li class=\"");
        push_status(out, s.up);
        out.append("\"><a href=\"history/");
        let page = page_name(s.name.as_str());
        push_escaped(out, page.as_str());
        out.append(".html\">");
        push_escaped(out, s.name.as_str());
        out.append("</a>: ");
        push_status(out, s.up);
        out.append("</li>\n");
        assert(out@ =~= before + service_line(*s));
        assert(services@.subrange(0, i + 1).drop_last() =~= services@.subrange(0, i as int));
        i += 1;
    }
    assert(services@.subrange(0, i as int) =~= services@);
}

/// The dashboard: every group in order, every service of it in order, with its
/// status, the time of the last update and the checking period in seconds.
pub fn render_dashboard(groups: &Vec<ServiceGroup>, last_updated: &str, frequency: u16) -> (r: String)
    ensures
        r@ == dashboard_doc(groups@, last_updated@, frequency as nat),
{
    let mut out = String::from_str(
        "<!DOCTYPE html>\n<html>\n<head><title>Service status</title></head>\n<body>\n<h1>Service status</h1>\n<p>Last updated: ",
    );
    push_escaped(&mut out, last_updated);
    out.append("</p>\n<p>Checked every ");
    let f = decimal_text(frequency as usize);
    out.append(f.as_str());
    out.append(" seconds</p>\n");
    let ghost head = out@;
    let mut g: usize = 0;
    while g < groups.len()
        invariant
            g <= groups.len(),
            out@ == head + group_blocks(groups@.subrange(0, g as int)),
        decreases groups.len() - g,
    {
        let group = &groups[g];
        let ghost before = out@;
        out.append("<h2>");
        push_escaped(&mut out, group.title.as_str());
        out.append("</h2>\n<ul>\n");
        push_service_lines(&mut out, &group.services);
        out.append("</ul>\n");
        assert(out@ =~= before + group_block(*group));
        assert(groups@.subrange(0, g + 1).drop_last() =~= groups@.subrange(0, g as int));
        g += 1;
    }
    assert(groups@.subrange(0, g as int) =~= groups@);
    out.append("</body>\n</html>\n");
    out
}

/// The history page of `service`: its name, current status and its checks, oldest first.
pub fn render_history(service: &Service, checks: &[Check]) -> (r: String)
    ensures
        r@ == history_doc(service.name@, service.up, checks@),
{
    let mut out = String::from_str("<!DOCTYPE html>\n<html>\n<head><title>");
    push_escaped(&mut out, service.name.as_str());
    out.append("</title></head>\n<body>\n<h1>");
    push_escaped(&mut out, service.name.as_str());
    out.append("</h1>\n<p>Now: ");
    push_status(&mut out, service.up);
    out.append("</p>\n<table>\n");
    let ghost head = out@;
    let mut i: usize = 0;
    while i < checks.len()
        invariant
            i <= checks.len(),
            out@ == head + check_rows(checks@.subrange(0, i as int)),
        decreases checks.len() - i,
    {
        let c = &checks[i];
        let ghost before = out@;
        out.append("<tr><td>");
        push_escaped(&mut out, c.timestamp.as_str());
        out.append("</td><td>");
        push_status(&mut out, c.status);
        out.append("</td></tr>\n");
        assert(out@ =~= before + check_row(*c));
        assert(checks@.subrange(0, i + 1).drop_last() =~= checks@.subrange(0, i as int));
        i += 1;
    }
    assert(checks@.subrange(0, i as int) =~= checks@);
    out.append("</table>\n</body>\n</html>\n");
    out
}

/// Where the history page of the service `name` is published, relative to the
/// output directory.
pub fn history_path(name: &str) -> (r: String)
    ensures
        r@ == history_path_spec(name@),
{
    let page = page_name(name);
    String::from_str("history/").concat(page.as_str()).concat(".html")
}

/// Two lists of services that show the same names and statuses.
pub open spec fn same_shown_services(a: Seq<Service>, b: Seq<Service>) -> bool {
    a.len() == b.len() && forall|i: int| 0 <= i < a.len() ==> (#[trigger] a[i]).name@ == b[i].name@ && a[i].up == b[i].up
}

/// Two lists of groups that show the same titles, names and statuses.
pub open spec fn same_shown_groups(a: Seq<ServiceGroup>, b: Seq<ServiceGroup>) -> bool {
    a.len() == b.len() && forall|i: int|
        0 <= i < a.len() ==> (#[trigger] a[i]).title@ == b[i].title@ && same_shown_services(a[i].services@, b[i].services@)
}

/// Two lists of checks with the same timestamps and statuses.
pub open spec fn same_checks(a: Seq<Check>, b: Seq<Check>) -> bool {
    a.len() == b.len() && forall|i: int| 0 <= i < a.len() ==> (#[trigger] a[i]).timestamp@ == b[i].timestamp@ && a[i].status == b[i].status
}

proof fn lemma_service_lines_same(a: Seq<Service>, b: Seq<Service>)
    requires
        same_shown_services(a, b),
    ensures
        service_lines(a) == service_lines(b),
    decreases a.len(),
{
    if a.len() > 0 {
        lemma_service_lines_same(a.drop_last(), b.drop_last());
        assert(a.last().name@ == b.last().name@);
    }
}

proof fn lemma_group_blocks_same(a: Seq<ServiceGroup>, b: Seq<ServiceGroup>)
    requires
        same_shown_groups(a, b),
    ensures
        group_blocks(a) == group_blocks(b),
    decreases a.len(),
{
    if a.len() > 0 {
        lemma_group_blocks_same(a.drop_last(), b.drop_last());
        assert(a.last().title@ == b.last().title@);
        lemma_service_lines_same(a.last().services@, b.last().services@);
    }
}

proof fn lemma_check_rows_same(a: Seq<Check>, b: Seq<Check>)
    requires
        same_checks(a, b),
    ensures
        check_rows(a) == check_rows(b),
    decreases a.len(),
{
    if a.len() > 0 {
        lemma_check_rows_same(a.drop_last(), b.drop_last());
        assert(a.last().timestamp@ == b.last().timestamp@);
    }
}

/// Rendering depends on its input's content alone: rendering groups that show
/// the same titles, names and statuses, with the same time and period, gives the
/// same dashboard character for character; a service of the same name and
/// status with the same checks gives the same history page.
pub proof fn lemma_render_deterministic(
    groups1: Seq<ServiceGroup>,
    groups2: Seq<ServiceGroup>,
    last_updated: Seq<char>,
    frequency: nat,
    name: Seq<char>,
    up: bool,
    checks1: Seq<Check>,
    checks2: Seq<Check>,
)
    requires
        same_shown_groups(groups1, groups2),
        same_checks(checks1, checks2),
    ensures
        dashboard_doc(groups1, last_updated, frequency) == dashboard_doc(groups2, last_updated, frequency),
        history_doc(name, up, checks1) == history_doc(name, up, checks2),
{
    lemma_group_blocks_same(groups1, groups2);
    lemma_check_rows_same(checks1, checks2);
}

} // verus!
