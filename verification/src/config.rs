//! What the embedding program hands the server: port, tick rate,
//! displacement and the two buffer capacities.

use vstd::prelude::*;

verus! {

/// Largest capacity accepted for the ingress queue and for the snapshot
/// stream. The stream reserves room for that many snapshots when it is
/// made.
pub const MAX_CAPACITY: usize = 65536;

/// Number of milliseconds in a second.
pub const MILLIS_PER_SECOND: u64 = 1000;

/// The server's settings.
#[derive(Clone, Copy, Debug, PartialEq, Eq, Structural)]
pub struct Config {
    /// TCP port to listen on.
    pub port: u16,
    /// Ticks of the authoritative loop per second.
    pub ticks_per_second: u8,
    /// Position units by which one input event moves a player.
    pub displacement: u32,
    /// Input events that the ingress queue holds before it turns events
    /// away.
    pub ingress_capacity: usize,
    /// Snapshots that the stream keeps for a subscriber that has fallen
    /// behind.
    pub broadcast_capacity: usize,
}

impl Config {
    /// Whether the loop can run on these settings: at least one tick per
    /// second, and both capacities between 1 and `MAX_CAPACITY`.
    pub open spec fn valid(&self) -> bool {
        &&& self.ticks_per_second > 0
        &&& 0 < self.ingress_capacity <= MAX_CAPACITY
        &&& 0 < self.broadcast_capacity <= MAX_CAPACITY
    }

    /// The standard settings: port 3001, 30 ticks per second, 100 position
    /// units per event, room for 512 events and 1024 snapshots.
    pub open spec fn standard() -> Config {
        Config {
            port: 3001,
            ticks_per_second: 30,
            displacement: 100,
            ingress_capacity: 512,
            broadcast_capacity: 1024,
        }
    }

    /// Length of one tick in whole milliseconds.
    pub open spec fn spec_tick_period_millis(&self) -> nat {
        (MILLIS_PER_SECOND as nat) / (self.ticks_per_second as nat)
    }

    /// Settings from their parts, or `None` where the loop could not run on
    /// them.
    pub fn new(
        port: u16,
        ticks_per_second: u8,
        displacement: u32,
        ingress_capacity: usize,
        broadcast_capacity: usize,
    ) -> (result: Option<Config>)
        ensures
            result == (if (Config {
                port,
                ticks_per_second,
                displacement,
                ingress_capacity,
                broadcast_capacity,
            }).valid() {
                Some(
                    Config {
                        port,
                        ticks_per_second,
                        displacement,
                        ingress_capacity,
                        broadcast_capacity,
                    },
                )
            } else {
                None::<Config>
            }),
    {
        let config = Config {
            port,
            ticks_per_second,
            displacement,
            ingress_capacity,
            broadcast_capacity,
        };
        if config.is_valid() {
            Some(config)
        } else {
            None
        }
    }

    /// Whether the loop can run on these settings.
    pub fn is_valid(&self) -> (result: bool)
        ensures
            result == self.valid(),
    {
        self.ticks_per_second > 0 && 0 < self.ingress_capacity && self.ingress_capacity
            <= MAX_CAPACITY && 0 < self.broadcast_capacity && self.broadcast_capacity
            <= MAX_CAPACITY
    }

    /// Length of one tick in whole milliseconds: 33 at 30 ticks per second.
    pub fn tick_period_millis(&self) -> (millis: u64)
        requires
            self.valid(),
        ensures
            millis == self.spec_tick_period_millis(),
            3 <= millis <= MILLIS_PER_SECOND,
    {
        let rate: u64 = self.ticks_per_second as u64;
        assert(3 <= 1000u64 / rate <= 1000) by (nonlinear_arith)
            requires
                1 <= rate <= 255,
        ;
        MILLIS_PER_SECOND / rate
    }
}

impl Default for Config {
    /// The standard settings.
    fn default() -> (config: Config)
        ensures
            config == Config::standard(),
            config.valid(),
    {
        Config {
            port: 3001,
            ticks_per_second: 30,
            displacement: 100,
            ingress_capacity: 512,
            broadcast_capacity: 1024,
        }
    }
}

/// How long the loop sleeps after a tick that took `elapsed` milliseconds:
/// the rest of the period, or nothing where the tick overran it.
pub open spec fn spec_sleep_millis(period: u64, elapsed: u64) -> u64 {
    if elapsed >= period {
        0
    } else {
        (period - elapsed) as u64
    }
}

/// How long to sleep until the next tick boundary. A tick that overran its
/// period is followed at once by the next one; the time lost is not made up
/// by extra ticks.
pub fn sleep_millis(period: u64, elapsed: u64) -> (millis: u64)
    ensures
        millis == spec_sleep_millis(period, elapsed),
        millis <= period,
{
    if elapsed >= period {
        0
    } else {
        period - elapsed
    }
}

} // verus!
