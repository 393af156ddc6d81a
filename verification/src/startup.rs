//! Pool startup: port layout, the conflict check, and readiness polling.
//!
//! Construction of the pool follows a fixed protocol.  First every target
//! port is probed: any answer means a foreign server already runs there and
//! startup must not go on, since dispatching to an unmanaged instance is
//! unsafe.  Then one process is spawned per port; a spawn failure abandons
//! startup (already-spawned siblings are killed by their handles).  After a
//! grace period the pool polls all instances until each answers; a refused
//! connection merely means "not ready yet", any other probe failure is
//! fatal.  The probing and spawning themselves happen outside the library;
//! this machine decides what each of their outcomes means.

use vstd::prelude::*;

verus! {

use crate::config::ServerConfig;
use crate::num::dec_digits;
use crate::num::dec_int;
use crate::text::views_of;
use vstd::string::StringSliceAdditionalSpecFns;

/// What one readiness probe of one instance came back with.
pub enum ProbeOutcome {
    /// The instance answered: it is online.
    Online,
    /// The connection was refused or could not be made: not online yet.
    Refused,
    /// The probe failed in some other way: a protocol or transport fault.
    Fatal,
}

/// Why pool construction was abandoned.
#[derive(PartialEq, Eq, Structural, Debug, Clone, Copy)]
pub enum StartupError {
    /// A target port answered before anything was spawned: a foreign
    /// server occupies it.
    Conflict,
    /// A backend process could not be spawned.
    SpawnFailed,
    /// A readiness probe failed fatally.
    FatalProbe,
}

/// Where pool construction stands.
#[derive(PartialEq, Eq, Structural, Debug, Clone, Copy)]
pub enum StartupPhase {
    /// Probing the target ports for foreign servers, before any spawn.
    ConflictProbe,
    /// Spawning one process per port.
    Spawning,
    /// Letting the fresh processes come up before polling them.
    Grace,
    /// Polling all instances until every one answers.
    Polling,
    /// Every instance is online; the pool may serve.
    Ready,
    /// Construction was abandoned.
    Failed(StartupError),
}

/// Some probe of the round found an instance online.
pub open spec fn any_online(round: Seq<ProbeOutcome>) -> bool {
    exists|i: int| 0 <= i < round.len() && round[i] is Online
}

/// Every probe of the round found its instance online.
pub open spec fn all_online(round: Seq<ProbeOutcome>) -> bool {
    forall|i: int| 0 <= i < round.len() ==> round[i] is Online
}

/// Some probe of the round failed fatally.
pub open spec fn any_fatal(round: Seq<ProbeOutcome>) -> bool {
    exists|i: int| 0 <= i < round.len() && round[i] is Fatal
}

/// The startup protocol: which phase construction is in, how many processes
/// it has spawned so far, and which ports it owns.
pub struct StartupMachine {
    pub phase: StartupPhase,
    /// How many instances the pool is to have.
    pub instances: usize,
    /// How many processes have been spawned so far.
    pub spawned: usize,
    /// The port of instance zero; instance `i` listens on `base_port + i`.
    pub base_port: u16,
}

impl StartupMachine {
    /// The machine never spawns past its pool size, owns only ports that
    /// exist, and spawns nothing before the conflict check has passed.
    pub open spec fn wf(self) -> bool {
        &&& 0 < self.instances
        &&& self.spawned <= self.instances
        &&& self.base_port + self.instances <= u16::MAX + 1
        &&& self.phase is ConflictProbe ==> self.spawned == 0
        &&& (self.phase is Grace || self.phase is Polling || self.phase is Ready)
            ==> self.spawned == self.instances
    }

    /// Begins construction of a pool of `instances` instances on the ports
    /// starting at `base_port`.
    pub fn new(instances: usize, base_port: u16) -> (r: StartupMachine)
        requires
            0 < instances,
            base_port + instances <= u16::MAX + 1,
        ensures
            r.wf(),
            r.phase == StartupPhase::ConflictProbe,
            r.instances == instances,
            r.spawned == 0,
            r.base_port == base_port,
    {
        StartupMachine { phase: StartupPhase::ConflictProbe, instances, spawned: 0, base_port }
    }

    /// Judges the pre-spawn probe round.  Any instance already online is a
    /// foreign server: construction fails with a conflict, and since
    /// nothing has been spawned yet, no process owned by the pool is left
    /// running.  Any fatal probe also abandons construction; otherwise
    /// spawning may begin.
    pub fn on_conflict_probe(&mut self, round: &Vec<ProbeOutcome>) -> (ok: bool)
        requires
            old(self).wf(),
            old(self).phase == StartupPhase::ConflictProbe,
        ensures
            final(self).wf(),
            final(self).instances == old(self).instances,
            final(self).base_port == old(self).base_port,
            final(self).spawned == 0,
            any_online(round@) ==> final(self).phase == StartupPhase::Failed(
                StartupError::Conflict,
            ),
            !any_online(round@) && any_fatal(round@) ==> final(self).phase
                == StartupPhase::Failed(StartupError::FatalProbe),
            !any_online(round@) && !any_fatal(round@) ==> final(self).phase
                == StartupPhase::Spawning,
            ok == (!any_online(round@) && !any_fatal(round@)),
    {
        if round_any_online(round) {
            self.phase = StartupPhase::Failed(StartupError::Conflict);
            false
        } else if round_any_fatal(round) {
            self.phase = StartupPhase::Failed(StartupError::FatalProbe);
            false
        } else {
            self.phase = StartupPhase::Spawning;
            true
        }
    }

    /// The port the next process is to listen on.
    pub fn next_spawn_port(&self) -> (r: u16)
        requires
            self.wf(),
            self.phase == StartupPhase::Spawning,
            self.spawned < self.instances,
        ensures
            r == self.base_port + self.spawned,
    {
        self.base_port + (self.spawned as u16)
    }

    /// One process came up; once all are spawned the grace period begins.
    pub fn on_spawn_ok(&mut self)
        requires
            old(self).wf(),
            old(self).phase == StartupPhase::Spawning,
            old(self).spawned < old(self).instances,
        ensures
            final(self).wf(),
            final(self).instances == old(self).instances,
            final(self).base_port == old(self).base_port,
            final(self).spawned == old(self).spawned + 1,
            final(self).phase == if old(self).spawned + 1 == old(self).instances {
                StartupPhase::Grace
            } else {
                StartupPhase::Spawning
            },
    {
        self.spawned = self.spawned + 1;
        if self.spawned == self.instances {
            self.phase = StartupPhase::Grace;
        }
    }

    /// A spawn failed: construction is abandoned; the processes spawned
    /// before it are killed through their handles.
    pub fn on_spawn_failed(&mut self)
        requires
            old(self).wf(),
            old(self).phase == StartupPhase::Spawning,
        ensures
            final(self).wf(),
            final(self).instances == old(self).instances,
            final(self).base_port == old(self).base_port,
            final(self).spawned == old(self).spawned,
            final(self).phase == StartupPhase::Failed(StartupError::SpawnFailed),
    {
        self.phase = StartupPhase::Failed(StartupError::SpawnFailed);
    }

    /// The initial grace period has elapsed; polling begins.
    pub fn on_grace_elapsed(&mut self)
        requires
            old(self).wf(),
            old(self).phase == StartupPhase::Grace,
        ensures
            final(self).wf(),
            final(self).instances == old(self).instances,
            final(self).base_port == old(self).base_port,
            final(self).spawned == old(self).spawned,
            final(self).phase == StartupPhase::Polling,
    {
        self.phase = StartupPhase::Polling;
    }

    /// Judges one readiness round: a fatal probe abandons construction, a
    /// full round of answers makes the pool ready, and anything else —
    /// refused connections among them — is retried indefinitely.
    pub fn on_poll_round(&mut self, round: &Vec<ProbeOutcome>)
        requires
            old(self).wf(),
            old(self).phase == StartupPhase::Polling,
        ensures
            final(self).wf(),
            final(self).instances == old(self).instances,
            final(self).base_port == old(self).base_port,
            final(self).spawned == old(self).spawned,
            any_fatal(round@) ==> final(self).phase == StartupPhase::Failed(
                StartupError::FatalProbe,
            ),
            !any_fatal(round@) && all_online(round@) ==> final(self).phase
                == StartupPhase::Ready,
            !any_fatal(round@) && !all_online(round@) ==> final(self).phase
                == StartupPhase::Polling,
    {
        if round_any_fatal(round) {
            self.phase = StartupPhase::Failed(StartupError::FatalProbe);
        } else if round_all_online(round) {
            self.phase = StartupPhase::Ready;
        }
    }
}

/// Whether some probe of the round found its instance online.
pub fn round_any_online(round: &Vec<ProbeOutcome>) -> (r: bool)
    ensures
        r == any_online(round@),
{
    let mut i: usize = 0;
    while i < round.len()
        invariant
            0 <= i <= round@.len(),
            forall|j: int| 0 <= j < i ==> !(round@[j] is Online),
        decreases round@.len() - i,
    {
        if matches!(&round[i], ProbeOutcome::Online) {
            return true;
        }
        i = i + 1;
    }
    false
}

/// Whether every probe of the round found its instance online.
pub fn round_all_online(round: &Vec<ProbeOutcome>) -> (r: bool)
    ensures
        r == all_online(round@),
{
    let mut i: usize = 0;
    while i < round.len()
        invariant
            0 <= i <= round@.len(),
            forall|j: int| 0 <= j < i ==> round@[j] is Online,
        decreases round@.len() - i,
    {
        if !matches!(&round[i], ProbeOutcome::Online) {
            return false;
        }
        i = i + 1;
    }
    true
}

/// Whether some probe of the round failed fatally.
pub fn round_any_fatal(round: &Vec<ProbeOutcome>) -> (r: bool)
    ensures
        r == any_fatal(round@),
{
    let mut i: usize = 0;
    while i < round.len()
        invariant
            0 <= i <= round@.len(),
            forall|j: int| 0 <= j < i ==> !(round@[j] is Fatal),
        decreases round@.len() - i,
    {
        if matches!(&round[i], ProbeOutcome::Fatal) {
            return true;
        }
        i = i + 1;
    }
    false
}

/// The command-line arguments a backend process is spawned with: the model,
/// the loopback host and its port, the resource limits, the optional BLAS
/// thread count, and the configured passthrough arguments.
pub open spec fn server_args_spec(c: ServerConfig, port: u16) -> Seq<Seq<u8>> {
    let base = seq![
        "--skiplauncher".spec_bytes(),
        "--model".spec_bytes(),
        c.model_file@,
        "--host".spec_bytes(),
        "127.0.0.1".spec_bytes(),
        "--port".spec_bytes(),
        dec_digits(port as nat),
        "--threads".spec_bytes(),
        dec_digits(c.threads as nat),
        "--blasbatchsize".spec_bytes(),
        dec_int(c.blas_batch_size as int),
        "--contextsize".spec_bytes(),
        dec_digits(c.context_size as nat),
    ];
    let with_blas = match c.blasthreads {
        Some(b) => base + seq!["--blasthreads".spec_bytes(), dec_digits(b as nat)],
        None => base,
    };
    with_blas + views_of(c.custom_args@)
}

/// Renders the argument list for the process serving `port`.
pub fn server_args(c: &ServerConfig, port: u16) -> (r: Vec<Vec<u8>>)
    ensures
        views_of(r@) == server_args_spec(*c, port),
{
    let mut out: Vec<Vec<u8>> = Vec::new();
    out.push(vstd::slice::slice_to_vec("--skiplauncher".as_bytes()));
    out.push(vstd::slice::slice_to_vec("--model".as_bytes()));
    out.push(crate::text::copy_bytes(&c.model_file));
    out.push(vstd::slice::slice_to_vec("--host".as_bytes()));
    out.push(vstd::slice::slice_to_vec("127.0.0.1".as_bytes()));
    out.push(vstd::slice::slice_to_vec("--port".as_bytes()));
    out.push(crate::num::u64_to_dec(port as u64));
    out.push(vstd::slice::slice_to_vec("--threads".as_bytes()));
    out.push(crate::num::u64_to_dec(c.threads));
    out.push(vstd::slice::slice_to_vec("--blasbatchsize".as_bytes()));
    out.push(crate::num::i64_to_dec(c.blas_batch_size));
    out.push(vstd::slice::slice_to_vec("--contextsize".as_bytes()));
    out.push(crate::num::u64_to_dec(c.context_size));
    match c.blasthreads {
        Some(b) => {
            out.push(vstd::slice::slice_to_vec("--blasthreads".as_bytes()));
            out.push(crate::num::u64_to_dec(b));
        },
        None => {},
    }
    let ghost head = views_of(out@);
    let mut i: usize = 0;
    while i < c.custom_args.len()
        invariant
            0 <= i <= c.custom_args@.len(),
            out@.len() == head.len() + i,
            views_of(out@) == head + views_of(c.custom_args@).subrange(0, i as int),
        decreases c.custom_args@.len() - i,
    {
        let ghost out0 = out@;
        out.push(crate::text::copy_bytes(&c.custom_args[i]));
        proof {
            assert(views_of(out@) =~= head + views_of(c.custom_args@).subrange(0, i + 1)) by {
                assert forall|k: int|
                    0 <= k < out@.len() implies views_of(out@)[k] == (head + views_of(
                    c.custom_args@,
                ).subrange(0, i + 1))[k] by {
                    if k < out0.len() {
                        assert(out@[k] == out0[k]);
                        assert(views_of(out0)[k] == (head + views_of(c.custom_args@).subrange(
                            0,
                            i as int,
                        ))[k]);
                    } else {
                        assert(out@[k] == out@.last());
                    }
                }
            }
        }
        i = i + 1;
    }
    proof {
        assert(views_of(c.custom_args@).subrange(0, c.custom_args@.len() as int) =~= views_of(
            c.custom_args@,
        ));
        assert(views_of(out@) =~= server_args_spec(*c, port));
    }
    out
}

} // verus!
