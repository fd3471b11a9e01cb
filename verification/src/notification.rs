use vstd::prelude::*;

use crate::render::text_renderer::TextColor;

verus! {

/// A line in the notification area.
pub struct Notification {
    pub message: String,
    pub color: TextColor,
    pub remaining_ticks: u32,
}

impl Notification {
    pub fn empty() -> (r: Notification)
        ensures
            r.message@.len() == 0,
            r.color == TextColor::Yellow,
            r.remaining_ticks == 0,
    {
        Notification { message: String::new(), color: TextColor::Yellow, remaining_ticks: 0 }
    }
}

pub const MAX_NOTIFICATIONS: usize = 7;
/// Ticks a notification stays.
pub const NOTIFICATION_DURATION: u32 = 500;

/// The slot a new notification takes: the first free one, else the first
/// of those with the least time left.
pub open spec fn oldest_from(ns: Seq<Notification>, i: int, best: int, lowest: u32) -> int
    decreases ns.len() - i,
{
    if i < 0 || i >= ns.len() {
        best
    } else if ns[i].remaining_ticks == 0 {
        i
    } else if ns[i].remaining_ticks < lowest {
        oldest_from(ns, i + 1, i, ns[i].remaining_ticks)
    } else {
        oldest_from(ns, i + 1, best, lowest)
    }
}

proof fn lemma_oldest_from(ns: Seq<Notification>, i: int, best: int, lowest: u32)
    requires
        0 <= i <= ns.len(),
        0 <= best < ns.len(),
    ensures
        0 <= oldest_from(ns, i, best, lowest) < ns.len(),
    decreases ns.len() - i,
{
    if i < ns.len() && ns[i].remaining_ticks != 0 {
        if ns[i].remaining_ticks < lowest {
            lemma_oldest_from(ns, i + 1, i, ns[i].remaining_ticks);
        } else {
            lemma_oldest_from(ns, i + 1, best, lowest);
        }
    }
}

/// The short messages in the middle of the screen, seven at most.
pub struct NotificationManager {
    pub notifications: [Notification; 7],
}

impl NotificationManager {
    pub fn new() -> (r: NotificationManager)
        ensures
            forall|i: int| 0 <= i < 7 ==> {
                &&& (#[trigger] r.notifications@[i]).message@.len() == 0
                &&& r.notifications@[i].color == TextColor::Yellow
                &&& r.notifications@[i].remaining_ticks == 0
            },
    {
        NotificationManager {
            notifications: [
                Notification::empty(),
                Notification::empty(),
                Notification::empty(),
                Notification::empty(),
                Notification::empty(),
                Notification::empty(),
                Notification::empty(),
            ],
        }
    }

    /// Counts every shown notification down by one tick.
    pub fn tick(&mut self)
        ensures
            forall|i: int| 0 <= i < 7 ==> {
                let o = old(self).notifications@[i];
                let n = #[trigger] final(self).notifications@[i];
                &&& n.message == o.message
                &&& n.color == o.color
                &&& n.remaining_ticks == if o.remaining_ticks > 0 { (o.remaining_ticks - 1) as u32 } else { 0 }
            },
    {
        let mut i: usize = 0;
        while i < MAX_NOTIFICATIONS
            invariant
                i <= 7,
                forall|j: int| 0 <= j < 7 ==> {
                    let o = old(self).notifications@[j];
                    let n = #[trigger] self.notifications@[j];
                    &&& n.message == o.message
                    &&& n.color == o.color
                    &&& n.remaining_ticks == if j < i {
                        if o.remaining_ticks > 0 { (o.remaining_ticks - 1) as u32 } else { 0 }
                    } else {
                        o.remaining_ticks
                    }
                },
            decreases 7 - i,
        {
            if self.notifications[i].remaining_ticks > 0 {
                self.notifications[i].remaining_ticks = self.notifications[i].remaining_ticks - 1;
            }
            i = i + 1;
        }
    }

    /// Hides every notification.
    pub fn clear(&mut self)
        ensures
            forall|i: int| 0 <= i < 7 ==> {
                let o = old(self).notifications@[i];
                let n = #[trigger] final(self).notifications@[i];
                &&& n.message == o.message
                &&& n.color == o.color
                &&& n.remaining_ticks == 0
            },
    {
        let mut i: usize = 0;
        while i < MAX_NOTIFICATIONS
            invariant
                i <= 7,
                forall|j: int| 0 <= j < 7 ==> {
                    let o = old(self).notifications@[j];
                    let n = #[trigger] self.notifications@[j];
                    &&& n.message == o.message
                    &&& n.color == o.color
                    &&& n.remaining_ticks == if j < i { 0 } else { o.remaining_ticks }
                },
            decreases 7 - i,
        {
            self.notifications[i].remaining_ticks = 0;
            i = i + 1;
        }
    }

    /// The slot a new notification replaces.
    fn get_oldest_notification(&self) -> (r: usize)
        ensures
            r == oldest_from(self.notifications@, 0, 0, 0xFFFF_FFFF),
            r < 7,
    {
        let mut best_index: usize = 0;
        let mut lowest_remaining_ticks: u32 = 0xFFFF_FFFF;
        let mut i: usize = 0;
        proof {
            lemma_oldest_from(self.notifications@, 0, 0, 0xFFFF_FFFF);
        }
        while i < MAX_NOTIFICATIONS
            invariant
                i <= 7,
                best_index < 7,
                oldest_from(self.notifications@, 0, 0, 0xFFFF_FFFF)
                    == oldest_from(self.notifications@, i as int, best_index as int, lowest_remaining_ticks),
            decreases 7 - i,
        {
            if self.notifications[i].remaining_ticks == 0 {
                return i;
            }
            if self.notifications[i].remaining_ticks < lowest_remaining_ticks {
                lowest_remaining_ticks = self.notifications[i].remaining_ticks;
                best_index = i;
            }
            i = i + 1;
        }
        best_index
    }

    /// Shows `message` in `color`, in the slot of the oldest notification.
    pub fn push(&mut self, message: String, color: TextColor)
        ensures
            ({
                let k = oldest_from(old(self).notifications@, 0, 0, 0xFFFF_FFFF);
                &&& 0 <= k < 7
                &&& final(self).notifications@ == old(self).notifications@.update(k,
                    Notification { message, color, remaining_ticks: NOTIFICATION_DURATION })
            }),
    {
        let k = self.get_oldest_notification();
        self.notifications[k] = Notification { message, color, remaining_ticks: NOTIFICATION_DURATION };
    }

    pub fn push_str(&mut self, message: &str, color: TextColor)
        ensures
            ({
                let k = oldest_from(old(self).notifications@, 0, 0, 0xFFFF_FFFF);
                &&& 0 <= k < 7
                &&& final(self).notifications@[k].message@ == message@
                &&& final(self).notifications@[k].color == color
                &&& final(self).notifications@[k].remaining_ticks == NOTIFICATION_DURATION
                &&& forall|i: int| 0 <= i < 7 && i != k ==> #[trigger] final(self).notifications@[i] == old(self).notifications@[i]
            }),
    {
        self.push(message.to_owned(), color);
    }
}

} // verus!
