use vstd::prelude::*;

use crate::error::RedisError;
use crate::executor::{execute_ok, Executor};
use crate::memory::ExpireStats;
use crate::resp::RESPType;
use crate::router::{route_ok, Router};
use crate::storage::Command;

verus! {

/// The request pipeline behind one connectionless call: route a parsed frame
/// into a command and apply it to the keyspace.
pub struct Engine {
    pub router: Router,
    pub executor: Executor,
}

impl Engine {
    pub fn new() -> (r: Self)
        ensures
            r.executor.storage.wf(),
            r.executor.storage@ == Map::<Seq<u8>, crate::storage::EntryModel>::empty(),
            r.executor.storage.mem_used() == 0,
    {
        Engine { router: Router::new(), executor: Executor::new() }
    }

    /// Route `command` and apply it: the outcome is whatever `route_ok` says
    /// of the frame, and on a routed command whatever `execute_ok` says.
    pub fn process_command(&mut self, command: RESPType, now_ms: u64) -> (r: Result<
        RESPType,
        RedisError,
    >)
        requires
            old(self).executor.storage.wf(),
        ensures
            final(self).executor.storage.wf(),
            final(self).executor.storage.mem_limit() == old(self).executor.storage.mem_limit(),
            exists|routed: Result<Command, RedisError>|
                {
                    &&& #[trigger] route_ok(command@, now_ms, routed)
                    &&& match routed {
                        Err(e) => r == Err::<RESPType, RedisError>(e)
                            && final(self).executor.storage@ == old(self).executor.storage@
                            && final(self).executor.storage.mem_used() == old(
                            self,
                        ).executor.storage.mem_used(),
                        Ok(cmd) => execute_ok(
                            old(self).executor.storage@,
                            old(self).executor.storage.mem_used(),
                            old(self).executor.storage.mem_limit(),
                            cmd,
                            now_ms,
                            final(self).executor.storage@,
                            final(self).executor.storage.mem_used(),
                            r,
                        ),
                    }
                },
    {
        let routed = self.router.route(&command, now_ms);
        let ghost routed_snap = routed;
        match routed {
            Err(e) => Err(e),
            Ok(cmd) => {
                proof {
                    // A routed store always carries a string value, whose
                    // length fits a machine word.
                    assert(match cmd {
                        Command::Put(_, v, _) => match v {
                            crate::storage::StorageValue::String(b) => {
                                &&& crate::storage::value_size(v@) == b@.len()
                                &&& b@.len() == b.len()
                            },
                            _ => false,
                        },
                        _ => true,
                    });
                }
                let r = self.executor.execute(cmd, now_ms);
                proof {
                    assert(route_ok(command@, now_ms, routed_snap));
                }
                r
            },
        }
    }

    /// Run the quick expiration sweep.
    pub fn active_expire_cycle_fast(&mut self) -> (stats: ExpireStats)
        requires
            old(self).executor.storage.wf(),
        ensures
            final(self).executor.storage.wf(),
    {
        self.executor.active_expire_cycle_fast()
    }

    /// Run the thorough expiration sweep.
    pub fn active_expire_cycle_slow(&mut self) -> (stats: ExpireStats)
        requires
            old(self).executor.storage.wf(),
        ensures
            final(self).executor.storage.wf(),
    {
        self.executor.active_expire_cycle_slow()
    }
}

} // verus!
