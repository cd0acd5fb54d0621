use vstd::prelude::*;

verus! {

/// Running counters a server front end may keep about its connections and
/// traffic.
#[derive(Debug)]
pub struct Stats {
    pub total_connections: usize,
    pub active_connections: usize,
    pub total_commands: usize,
    pub total_memory: usize,
}

impl Default for Stats {
    fn default() -> (r: Self)
        ensures
            r.total_connections == 0,
            r.active_connections == 0,
            r.total_commands == 0,
            r.total_memory == 0,
    {
        Stats {
            total_connections: 0,
            active_connections: 0,
            total_commands: 0,
            total_memory: 0,
        }
    }
}

} // verus!
