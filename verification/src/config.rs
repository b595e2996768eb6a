//! Runtime configuration: the builder that users fill in and the runtime
//! plan it yields.

use vstd::prelude::*;
use crate::arena::DEFAULT_ARENA_SLOTS;
use crate::worker::{all_idle, worker_plan, MAX_WORKERS};

verus! {

/// Cells of the ring of the thread that runs `block_on`, by default.
pub const DEFAULT_LOCAL_TASK_BUFFER_SIZE: usize = 128;

/// Cells of the ring that the workers share, by default.
pub const DEFAULT_WORKER_TASK_BUFFER_SIZE: usize = 4096;

/// Stack size of each worker thread, by default.
pub const DEFAULT_WORKER_STACK_SIZE: usize = 2 * 1024 * 1024;

/// Workers to start when the machine does not say how many it can run.
pub const DEFAULT_WORKER_COUNT: usize = 4;

/// The settings a runtime is built from.
#[derive(Clone, Copy, PartialEq, Eq, Structural, Debug)]
pub struct GraceConfig {
    pub local_task_buffer_size: usize,
    pub worker_task_buffer_size: usize,
    pub arena_slots: usize,
    pub worker_count: usize,
    pub worker_stack_size: usize,
}

/// The default settings, given what the machine reports of its available
/// parallelism (`None` when it cannot tell).
pub open spec fn default_config(available_parallelism: Option<usize>) -> GraceConfig {
    GraceConfig {
        local_task_buffer_size: DEFAULT_LOCAL_TASK_BUFFER_SIZE,
        worker_task_buffer_size: DEFAULT_WORKER_TASK_BUFFER_SIZE,
        arena_slots: DEFAULT_ARENA_SLOTS,
        worker_count: match available_parallelism {
            Some(n) => n,
            None => DEFAULT_WORKER_COUNT,
        },
        worker_stack_size: DEFAULT_WORKER_STACK_SIZE,
    }
}

/// Only the worker count of the default settings depends on what the
/// machine reports: whatever two reports give, the ring sizes, arena slots
/// and stack size are the same defaults, and the worker count is the
/// reported parallelism, or four when none is reported.
pub proof fn lemma_default_depends_only_on_parallelism(p: Option<usize>, q: Option<usize>)
    ensures
        default_config(p).local_task_buffer_size == default_config(q).local_task_buffer_size,
        default_config(p).worker_task_buffer_size == default_config(q).worker_task_buffer_size,
        default_config(p).arena_slots == default_config(q).arena_slots,
        default_config(p).worker_stack_size == default_config(q).worker_stack_size,
        default_config(p).local_task_buffer_size == DEFAULT_LOCAL_TASK_BUFFER_SIZE,
        default_config(p).worker_task_buffer_size == DEFAULT_WORKER_TASK_BUFFER_SIZE,
        default_config(p).arena_slots == DEFAULT_ARENA_SLOTS,
        default_config(p).worker_stack_size == DEFAULT_WORKER_STACK_SIZE,
        p matches Some(n) ==> default_config(p).worker_count == n,
        p is None ==> default_config(p).worker_count == DEFAULT_WORKER_COUNT,
        p == q ==> default_config(p) == default_config(q),
{
}

impl GraceConfig {
    /// The default settings: one worker per unit of available parallelism,
    /// or four when the machine cannot tell.
    pub fn default_with(available_parallelism: Option<usize>) -> (c: GraceConfig)
        ensures
            c == default_config(available_parallelism),
            c.local_task_buffer_size == DEFAULT_LOCAL_TASK_BUFFER_SIZE,
            c.worker_task_buffer_size == DEFAULT_WORKER_TASK_BUFFER_SIZE,
            c.arena_slots == DEFAULT_ARENA_SLOTS,
            c.worker_stack_size == DEFAULT_WORKER_STACK_SIZE,
            c.worker_count == (match available_parallelism {
                Some(n) => n,
                None => DEFAULT_WORKER_COUNT,
            }),
    {
        let worker_count = match available_parallelism {
            Some(n) => n,
            None => DEFAULT_WORKER_COUNT,
        };
        GraceConfig {
            local_task_buffer_size: DEFAULT_LOCAL_TASK_BUFFER_SIZE,
            worker_task_buffer_size: DEFAULT_WORKER_TASK_BUFFER_SIZE,
            arena_slots: DEFAULT_ARENA_SLOTS,
            worker_count,
            worker_stack_size: DEFAULT_WORKER_STACK_SIZE,
        }
    }
}

/// Builds a runtime step by step from the default settings.
pub struct GraceBuilder {
    config: GraceConfig,
}

impl View for GraceBuilder {
    type V = GraceConfig;

    closed spec fn view(&self) -> GraceConfig {
        self.config
    }
}

impl GraceBuilder {
    /// A builder holding the default settings for the parallelism that the
    /// machine reports.
    pub fn new(available_parallelism: Option<usize>) -> (b: GraceBuilder)
        ensures
            b@ == default_config(available_parallelism),
    {
        GraceBuilder { config: GraceConfig::default_with(available_parallelism) }
    }

    /// The settings gathered so far.
    pub fn config(&self) -> (c: GraceConfig)
        ensures
            c == self@,
    {
        self.config
    }

    /// Sets the cells of the ring of the thread that runs `block_on`.
    pub fn local_task_buffer_size(self, s: usize) -> (b: GraceBuilder)
        ensures
            b@ == (GraceConfig { local_task_buffer_size: s, ..self@ }),
    {
        let mut b = self;
        b.config.local_task_buffer_size = s;
        b
    }

    /// Sets the cells of the ring that the workers share.
    pub fn worker_task_buffer_size(self, s: usize) -> (b: GraceBuilder)
        ensures
            b@ == (GraceConfig { worker_task_buffer_size: s, ..self@ }),
    {
        let mut b = self;
        b.config.worker_task_buffer_size = s;
        b
    }

    /// Sets the number of arena slots.
    pub fn arena_slots(self, s: usize) -> (b: GraceBuilder)
        ensures
            b@ == (GraceConfig { arena_slots: s, ..self@ }),
    {
        let mut b = self;
        b.config.arena_slots = s;
        b
    }

    /// Sets the number of workers.
    pub fn worker_count(self, n: usize) -> (b: GraceBuilder)
        ensures
            b@ == (GraceConfig { worker_count: n, ..self@ }),
    {
        let mut b = self;
        b.config.worker_count = n;
        b
    }

    /// Sets the stack size of each worker thread.
    pub fn worker_stack_size(self, s: usize) -> (b: GraceBuilder)
        ensures
            b@ == (GraceConfig { worker_stack_size: s, ..self@ }),
    {
        let mut b = self;
        b.config.worker_stack_size = s;
        b
    }

    /// The runtime these settings describe; there must be at least one
    /// worker.
    pub fn build(self) -> (rt: RT)
        requires
            self@.worker_count != 0,
        ensures
            rt.config == (GraceConfig {
                worker_count: if self@.worker_count >= MAX_WORKERS {
                    MAX_WORKERS
                } else {
                    self@.worker_count
                },
                ..self@
            }),
            rt.workers_bitmap == all_idle(rt.config.worker_count as int),
    {
        RT::new(self.config)
    }
}

/// A runtime's plan: its settings, with the worker count capped at 64, and
/// the idle map with every worker idle.
pub struct RT {
    pub config: GraceConfig,
    pub workers_bitmap: u64,
}

impl RT {
    /// Plans the runtime for `config`; a runtime without workers is refused.
    pub fn new(config: GraceConfig) -> (rt: RT)
        requires
            config.worker_count != 0,
        ensures
            rt.config == (GraceConfig {
                worker_count: if config.worker_count >= MAX_WORKERS {
                    MAX_WORKERS
                } else {
                    config.worker_count
                },
                ..config
            }),
            rt.workers_bitmap == all_idle(rt.config.worker_count as int),
    {
        let (worker_count, workers_bitmap) = worker_plan(config.worker_count);
        RT { config: GraceConfig { worker_count, ..config }, workers_bitmap }
    }
}

} // verus!
