//! State of a continuous ping, like Linux `ping`.
use vstd::prelude::*;

verus! {

/// A running ping and its statistics (times in milliseconds).
pub struct PingState {
    pub target: [u8; 4],
    pub seq: u16,
    /// When the current request was sent.
    pub sent_time: i64,
    /// When a request was last sent (requests go out once a second).
    pub last_send_time: i64,
    /// Waiting for the reply to the current request.
    pub waiting: bool,
    pub continuous: bool,
    pub packets_sent: u32,
    pub packets_received: u32,
    pub min_rtt: i64,
    pub max_rtt: i64,
    pub total_rtt: i64,
}

impl PingState {
    /// A continuous ping of `target` started at `timestamp`, nothing sent yet.
    pub fn new(target: [u8; 4], timestamp: i64) -> (p: Self)
        ensures
            p.target == target,
            p.seq == 0,
            p.sent_time == timestamp,
            p.last_send_time == 0,
            !p.waiting,
            p.continuous,
            p.packets_sent == 0,
            p.packets_received == 0,
            p.min_rtt == i64::MAX,
            p.max_rtt == 0,
            p.total_rtt == 0,
    {
        PingState {
            target,
            seq: 0,
            sent_time: timestamp,
            last_send_time: 0,
            waiting: false,
            continuous: true,
            packets_sent: 0,
            packets_received: 0,
            min_rtt: i64::MAX,
            max_rtt: 0,
            total_rtt: 0,
        }
    }

    /// Count a reply that took `rtt`.
    pub fn record_reply(&mut self, rtt: i64)
        requires
            old(self).packets_received < u32::MAX,
            i64::MIN <= old(self).total_rtt + rtt <= i64::MAX,
        ensures
            final(self).packets_received == old(self).packets_received + 1,
            final(self).total_rtt == old(self).total_rtt + rtt,
            final(self).min_rtt == if rtt < old(self).min_rtt {
                rtt
            } else {
                old(self).min_rtt
            },
            final(self).max_rtt == if rtt > old(self).max_rtt {
                rtt
            } else {
                old(self).max_rtt
            },
            final(self).seq == old(self).seq,
            final(self).packets_sent == old(self).packets_sent,
            final(self).waiting == old(self).waiting,
            final(self).continuous == old(self).continuous,
            final(self).sent_time == old(self).sent_time,
            final(self).last_send_time == old(self).last_send_time,
            final(self).target == old(self).target,
    {
        self.packets_received = self.packets_received + 1;
        self.total_rtt = self.total_rtt + rtt;
        if rtt < self.min_rtt {
            self.min_rtt = rtt;
        }
        if rtt > self.max_rtt {
            self.max_rtt = rtt;
        }
    }

    /// Mean round-trip time (truncated toward zero), 0 before any reply.
    pub fn avg_rtt(&self) -> (r: i64)
        ensures
            self.packets_received > 0 ==> r as int == (if self.total_rtt >= 0 {
                self.total_rtt as int / self.packets_received as int
            } else {
                -((-self.total_rtt as int) / self.packets_received as int)
            }),
            self.packets_received == 0 ==> r == 0,
    {
        if self.packets_received > 0 {
            self.total_rtt / (self.packets_received as i64)
        } else {
            0
        }
    }

    /// Percentage of requests without a reply, rounded down (0 before any request).
    pub fn packet_loss_percent(&self) -> (r: u32)
        requires
            self.packets_received <= self.packets_sent,
            (self.packets_sent - self.packets_received) * 100 <= u32::MAX,
        ensures
            self.packets_sent > 0 ==> r == (self.packets_sent - self.packets_received) * 100
                / self.packets_sent as int,
            self.packets_sent == 0 ==> r == 0,
    {
        if self.packets_sent > 0 {
            ((self.packets_sent - self.packets_received) * 100) / self.packets_sent
        } else {
            0
        }
    }
}

} // verus!
