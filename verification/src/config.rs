//! The part of the configuration that decisions depend on.

use vstd::prelude::*;

verus! {

/// Configuration of the source.
#[derive(Debug, PartialEq, Eq)]
pub struct WindowsEventLogConfig {
    /// Channels to read.
    pub channels: Vec<String>,
    /// The operator's query, where there is one.
    pub event_query: Option<String>,
    /// Event ids to keep, where the source is limited to some.
    pub only_event_ids: Option<Vec<u32>>,
    /// Event ids to drop.
    pub ignore_event_ids: Vec<u32>,
    /// Records to ask for in one read.
    pub batch_size: u32,
    /// Whether a first start reads the records that are already there.
    pub read_existing_events: bool,
    /// Events per second, or zero for no limit.
    pub events_per_second: u32,
    /// Seconds after which each subscription is rebuilt from its bookmark.
    pub subscription_refresh_secs: u64,
}

impl Default for WindowsEventLogConfig {
    fn default() -> (config: WindowsEventLogConfig)
        ensures
            config.channels@.len() == 0,
            config.event_query is None,
            config.only_event_ids is None,
            config.ignore_event_ids@.len() == 0,
            config.batch_size == 100,
            !config.read_existing_events,
            config.events_per_second == 0,
            config.subscription_refresh_secs == 86_400,
    {
        WindowsEventLogConfig {
            channels: Vec::new(),
            event_query: None,
            only_event_ids: None,
            ignore_event_ids: Vec::new(),
            batch_size: 100,
            read_existing_events: false,
            events_per_second: 0,
            subscription_refresh_secs: 86_400,
        }
    }
}

/// Something that no two sources may share.
#[derive(Debug, PartialEq, Eq)]
pub enum Resource {
    /// A named buffer on disk.
    DiskBuffer(String),
}

impl Resource {
    /// The name of the resource.
    pub open spec fn name(self) -> Seq<char> {
        match self {
            Resource::DiskBuffer(name) => name@,
        }
    }
}

impl WindowsEventLogConfig {
    /// What this source claims for itself: its channels, in order.
    pub fn resources(&self) -> (resources: Vec<Resource>)
        ensures
            resources@.map_values(|r: Resource| r.name()) == crate::text::texts(self.channels@),
    {
        let mut resources: Vec<Resource> = Vec::new();
        let mut i: usize = 0;
        while i < self.channels.len()
            invariant
                i <= self.channels@.len(),
                resources@.len() == i,
                forall|j: int|
                    0 <= j < i ==> (#[trigger] resources@[j]).name() == self.channels@[j]@,
            decreases self.channels.len() - i,
        {
            resources.push(Resource::DiskBuffer(self.channels[i].clone()));
            i += 1;
        }
        assert(resources@.map_values(|r: Resource| r.name()) =~= crate::text::texts(
            self.channels@,
        ));
        resources
    }

    /// Whether the source can wait for acknowledgements.
    pub fn can_acknowledge(&self) -> (can: bool)
        ensures
            can,
    {
        true
    }

    /// The rate to limit to, if any.
    pub fn rate_limit(&self) -> (limit: Option<u32>)
        ensures
            limit == if self.events_per_second > 0 {
                Some(self.events_per_second)
            } else {
                None
            },
    {
        if self.events_per_second > 0 {
            Some(self.events_per_second)
        } else {
            None
        }
    }
}

} // verus!
