//! What the engine tells the user: notices, and the rows of the status
//! table.

use crate::config::Service;
use crate::container::{ServiceStatus, StatusRow};
use crate::stop::StopOutcome;
use crate::assemble::{join2, join3, join4, natural_string, natural_text, push_text};
use crate::text::texts;
use vstd::prelude::*;

verus! {

/// How a notice is meant.
#[derive(Debug, Clone, Copy, PartialEq, Eq, Structural)]
pub enum NoticeKind {
    Info,
    Warning,
    Success,
}

/// One message to the user.
#[derive(Debug, Clone, PartialEq, Eq)]
pub struct Notice {
    pub kind: NoticeKind,
    pub text: String,
}

/// How a status is set off in the table.
#[derive(Debug, Clone, Copy, PartialEq, Eq, Structural)]
pub enum Highlight {
    Green,
    Red,
}

/// `items` between double quotes each, with `, ` between them.
pub open spec fn quoted_items(items: Seq<Seq<char>>) -> Seq<char>
    decreases items.len(),
{
    if items.len() == 0 {
        Seq::empty()
    } else if items.len() == 1 {
        seq!['"'] + items[0] + seq!['"']
    } else {
        quoted_items(items.drop_last()) + seq![',', ' ', '"'] + items.last() + seq!['"']
    }
}

/// `items` as a list: in square brackets, each between double quotes, with
/// `, ` between them. Nothing inside an item is escaped.
pub open spec fn quoted_list(items: Seq<Seq<char>>) -> Seq<char> {
    seq!['['] + quoted_items(items) + seq![']']
}

/// `items` as a list: in square brackets, each between double quotes, with
/// `, ` between them.
pub fn quoted_list_string(items: &Vec<String>) -> (r: String)
    ensures
        r@ == quoted_list(texts(items@)),
{
    proof {
        reveal_strlit("[");
        reveal_strlit("]");
        reveal_strlit("\"");
        reveal_strlit(", \"");
        assert("["@ =~= seq!['[']);
        assert("]"@ =~= seq![']']);
        assert("\""@ =~= seq!['"']);
        assert(", \""@ =~= seq![',', ' ', '"']);
    }
    let mut r = "[".to_owned();
    let mut i: usize = 0;
    assert(texts(items@).take(0) =~= Seq::<Seq<char>>::empty());
    assert(r@ =~= seq!['['] + quoted_items(texts(items@).take(0)));
    while i < items.len()
        invariant
            i <= items@.len(),
            "\""@ == seq!['"'],
            ", \""@ == seq![',', ' ', '"'],
            r@ == seq!['['] + quoted_items(texts(items@).take(i as int)),
        decreases items@.len() - i,
    {
        let ghost before = texts(items@).take(i as int);
        let ghost next = texts(items@).take(i + 1);
        proof {
            assert(next.drop_last() =~= before);
            assert(next.last() == items@[i as int]@);
        }
        if i == 0 {
            r.append("\"");
        } else {
            r.append(", \"");
        }
        r.append(items[i].as_str());
        r.append("\"");
        assert(r@ =~= seq!['['] + quoted_items(next));
        i += 1;
    }
    assert(texts(items@).take(items@.len() as int) =~= texts(items@));
    r.append("]");
    r
}

/// What is said of a service that runs already when it is to be started.
pub open spec fn already_running_text(name: Seq<char>) -> Seq<char> {
    name + " already running"@
}

/// What is said of a service that was started as the container `id`.
pub open spec fn started_text(name: Seq<char>, id: Seq<char>) -> Seq<char> {
    name + " started ("@ + id + ")"@
}

/// What is said of a service at the end of the stop protocol.
pub open spec fn stop_text(name: Seq<char>, outcome: StopOutcome) -> Seq<char> {
    match outcome {
        StopOutcome::Stopped => name + " stopped"@,
        StopOutcome::AlreadyAbsent => name + " not found"@,
        StopOutcome::FailedToStop => name + " failed to stop (tried stop and kill)"@,
    }
}

/// How the end of the stop protocol is meant: a container that is absent
/// is worth a remark, one that could not be stopped a warning.
pub open spec fn stop_kind(outcome: StopOutcome) -> NoticeKind {
    match outcome {
        StopOutcome::Stopped => NoticeKind::Success,
        StopOutcome::AlreadyAbsent => NoticeKind::Info,
        StopOutcome::FailedToStop => NoticeKind::Warning,
    }
}

/// `count` followed by `what`.
pub open spec fn counted_text(before: Seq<char>, count: nat, after: Seq<char>) -> Seq<char> {
    before + natural_text(count) + after
}

/// The advisory for a service that runs already when it is to be started.
pub fn already_running_notice(name: &str) -> (n: Notice)
    ensures
        n.kind == NoticeKind::Warning,
        n.text@ == already_running_text(name@),
{
    Notice { kind: NoticeKind::Warning, text: join2(name, " already running") }
}

/// The notice of a service that was started as the container `id`.
pub fn started_notice(name: &str, id: &str) -> (n: Notice)
    ensures
        n.kind == NoticeKind::Success,
        n.text@ == started_text(name@, id@),
{
    Notice { kind: NoticeKind::Success, text: join4(name, " started (", id, ")") }
}

/// The notice of how the stop protocol ended for a service.
pub fn stop_notice(name: &str, outcome: StopOutcome) -> (n: Notice)
    ensures
        n.kind == stop_kind(outcome),
        n.text@ == stop_text(name@, outcome),
{
    match outcome {
        StopOutcome::Stopped => Notice {
            kind: NoticeKind::Success,
            text: join2(name, " stopped"),
        },
        StopOutcome::AlreadyAbsent => Notice {
            kind: NoticeKind::Info,
            text: join2(name, " not found"),
        },
        StopOutcome::FailedToStop => Notice {
            kind: NoticeKind::Warning,
            text: join2(name, " failed to stop (tried stop and kill)"),
        },
    }
}

/// The notice that `count` services were started.
pub fn started_summary(count: usize) -> (n: Notice)
    ensures
        n.kind == NoticeKind::Success,
        n.text@ == counted_text("Started "@, count as nat, " service(s)"@),
{
    let digits = natural_string(count as u64);
    Notice { kind: NoticeKind::Success, text: join3("Started ", digits.as_str(), " service(s)") }
}

/// The notice that `count` services were gone through to stop them.
pub fn processed_summary(count: usize) -> (n: Notice)
    ensures
        n.kind == NoticeKind::Success,
        n.text@ == counted_text("Processed "@, count as nat, " service(s)"@),
{
    let digits = natural_string(count as u64);
    Notice {
        kind: NoticeKind::Success,
        text: join3("Processed ", digits.as_str(), " service(s)"),
    }
}

/// The notice that the directories of `count` named volumes are there.
pub fn volumes_summary(count: usize) -> (n: Notice)
    ensures
        n.kind == NoticeKind::Info,
        n.text@ == counted_text("Initialized "@, count as nat, " named volume(s)"@),
{
    let digits = natural_string(count as u64);
    Notice {
        kind: NoticeKind::Info,
        text: join3("Initialized ", digits.as_str(), " named volume(s)"),
    }
}

/// The warnings for a service that declares ports, which the runtime does
/// not map: none where it declares none, and else three, the second of
/// which lists the ports.
pub fn port_warnings(service: &Service) -> (r: Vec<Notice>)
    ensures
        service.ports@.len() == 0 ==> r@.len() == 0,
        service.ports@.len() > 0 ==> {
            &&& r@.len() == 3
            &&& forall|i: int| 0 <= i < 3 ==> (#[trigger] r@[i]).kind == NoticeKind::Warning
            &&& r@[0].text@
                == "Port mappings are not directly supported by Apple's container framework"@
            &&& r@[1].text@ == "Ports specified: "@ + quoted_list(texts(service.ports@))
            &&& r@[2].text@ == "You may need to configure networking separately"@
        },
{
    let mut r: Vec<Notice> = Vec::new();
    if service.ports.len() > 0 {
        let listed = quoted_list_string(&service.ports);
        r.push(
            Notice {
                kind: NoticeKind::Warning,
                text: "Port mappings are not directly supported by Apple's container framework".to_owned(),
            },
        );
        r.push(
            Notice { kind: NoticeKind::Warning, text: join2("Ports specified: ", listed.as_str()) },
        );
        r.push(
            Notice {
                kind: NoticeKind::Warning,
                text: "You may need to configure networking separately".to_owned(),
            },
        );
    }
    r
}

/// The headings of the status table.
pub fn table_headings() -> (r: Vec<String>)
    ensures
        texts(r@) == seq!["SERVICE"@, "STATUS"@, "CONTAINER ID"@, "IMAGE"@],
{
    let mut r: Vec<String> = Vec::new();
    push_text(&mut r, "SERVICE");
    push_text(&mut r, "STATUS");
    push_text(&mut r, "CONTAINER ID");
    push_text(&mut r, "IMAGE");
    assert(texts(r@) =~= seq!["SERVICE"@, "STATUS"@, "CONTAINER ID"@, "IMAGE"@]);
    r
}

impl ServiceStatus {
    /// The status in words.
    pub open spec fn label_text(self) -> Seq<char> {
        match self {
            ServiceStatus::NotCreated => "Not Created"@,
            ServiceStatus::Running => "Running"@,
            ServiceStatus::Stopped => "Stopped"@,
        }
    }

    /// The status in words.
    pub fn label(&self) -> (r: &'static str)
        ensures
            r@ == self.label_text(),
    {
        match self {
            ServiceStatus::NotCreated => "Not Created",
            ServiceStatus::Running => "Running",
            ServiceStatus::Stopped => "Stopped",
        }
    }

    /// How the status is set off: green for a service that runs, red for
    /// any other.
    pub fn highlight(&self) -> (h: Highlight)
        ensures
            h == (if self is Running {
                Highlight::Green
            } else {
                Highlight::Red
            }),
    {
        match self {
            ServiceStatus::Running => Highlight::Green,
            _ => Highlight::Red,
        }
    }
}

impl StatusRow {
    /// The cells of the row: service, status, identifier, image.
    pub fn cells(&self) -> (r: Vec<String>)
        ensures
            texts(r@) == seq![
                self.service@,
                self.status.label_text(),
                self.container_id@,
                self.image@,
            ],
    {
        let mut r: Vec<String> = Vec::new();
        push_text(&mut r, self.service.as_str());
        push_text(&mut r, self.status.label());
        push_text(&mut r, self.container_id.as_str());
        push_text(&mut r, self.image.as_str());
        assert(texts(r@) =~= seq![
            self.service@,
            self.status.label_text(),
            self.container_id@,
            self.image@,
        ]);
        r
    }
}

} // verus!
