//! Notifications for what happens in a terminal.

use vstd::prelude::*;

verus! {

/// What a terminal reports.
#[derive(Debug, PartialEq, Eq)]
pub enum TerminalEvent {
    Bell,
    TitleChanged(String),
    Other,
}

/// How urgent a notification is.
#[derive(Clone, Copy, Debug, PartialEq, Eq, Structural)]
pub enum Urgency {
    Low,
    Normal,
    Critical,
}

/// A notification for the user.
#[derive(Debug, PartialEq, Eq)]
pub struct Notification {
    pub title: String,
    pub body: String,
    pub urgency: Urgency,
}

/// A notification as a mathematical value.
pub ghost struct NotificationModel {
    pub title: Seq<char>,
    pub body: Seq<char>,
    pub urgency: Urgency,
}

impl View for Notification {
    type V = NotificationModel;

    open spec fn view(&self) -> NotificationModel {
        NotificationModel { title: self.title@, body: self.body@, urgency: self.urgency }
    }
}

/// The notification for an event: a normal one for the bell, one of low
/// urgency for a new title, none for anything else.
pub open spec fn notification_for(event: TerminalEvent) -> Option<NotificationModel> {
    match event {
        TerminalEvent::Bell => Some(
            NotificationModel {
                title: "Terminal Bell"@,
                body: "Bell triggered in terminal"@,
                urgency: Urgency::Normal,
            },
        ),
        TerminalEvent::TitleChanged(title) => Some(
            NotificationModel {
                title: "Title Changed"@,
                body: title@,
                urgency: Urgency::Low,
            },
        ),
        TerminalEvent::Other => None,
    }
}

/// The notifications for some events, in their order.
pub open spec fn notifications_for(events: Seq<TerminalEvent>) -> Seq<NotificationModel>
    decreases events.len(),
{
    if events.len() == 0 {
        Seq::empty()
    } else {
        let before = notifications_for(events.drop_last());
        match notification_for(events.last()) {
            Some(n) => before.push(n),
            None => before,
        }
    }
}

/// The notifications that some events call for.
pub fn check_notifications(events: &[TerminalEvent]) -> (out: Vec<Notification>)
    ensures
        Seq::new(out@.len(), |i: int| out@[i]@) == notifications_for(events@),
{
    let mut out: Vec<Notification> = Vec::new();
    let mut i: usize = 0;
    while i < events.len()
        invariant
            i <= events@.len(),
            Seq::new(out@.len(), |k: int| out@[k]@) =~= notifications_for(events@.take(i as int)),
        decreases events@.len() - i,
    {
        assert(events@.take(i as int + 1).drop_last() =~= events@.take(i as int));
        match &events[i] {
            TerminalEvent::Bell => {
                out.push(
                    Notification {
                        title: "Terminal Bell".to_owned(),
                        body: "Bell triggered in terminal".to_owned(),
                        urgency: Urgency::Normal,
                    },
                );
            },
            TerminalEvent::TitleChanged(title) => {
                out.push(
                    Notification {
                        title: "Title Changed".to_owned(),
                        body: title.clone(),
                        urgency: Urgency::Low,
                    },
                );
            },
            TerminalEvent::Other => {},
        }
        i = i + 1;
    }
    assert(events@.take(events@.len() as int) =~= events@);
    out
}

} // verus!
