//! The parameters of a run, checked once when they are put together.

use vstd::prelude::*;

verus! {

/// Why a set of parameters is refused.
#[derive(Clone, Copy, Debug, PartialEq, Eq, Structural)]
pub enum ConfigError {
    /// A pool needs at least one worker.
    NoWorkers,
    /// A channel needs room for at least one message.
    NoCapacity,
    /// A channel whose capacity is the largest machine word cannot be
    /// received on.
    CapacityTooLarge,
    /// A workload of as many requests as the largest machine word cannot be
    /// acknowledged: the channel for its tokens could not be received on.
    TooManyItems,
    /// The driver's core is the core of a worker.
    DriverCoreTaken,
}

/// Why these parameters are refused, if they are. The first fault in the
/// order of the parameters is the one that is named.
pub open spec fn refusal(
    workers: usize,
    capacity: usize,
    items: usize,
    driver_core: usize,
    acknowledge: bool,
) -> Option<ConfigError> {
    if workers == 0 {
        Some(ConfigError::NoWorkers)
    } else if capacity == 0 {
        Some(ConfigError::NoCapacity)
    } else if capacity == usize::MAX {
        Some(ConfigError::CapacityTooLarge)
    } else if acknowledge && items == usize::MAX {
        Some(ConfigError::TooManyItems)
    } else if driver_core < workers {
        Some(ConfigError::DriverCoreTaken)
    } else {
        None
    }
}

/// The parameters of a run. A value of this type always has at least one
/// worker, a capacity of at least one and below the largest machine word, a
/// workload below the largest machine word if it is to be acknowledged, and
/// a core for the driver that no worker has.
#[derive(Clone, Copy, Debug)]
pub struct BenchConfig {
    workers: usize,
    capacity: usize,
    items: usize,
    driver_core: usize,
    acknowledge: bool,
}

impl BenchConfig {
    #[verifier::type_invariant]
    spec fn valid(self) -> bool {
        refusal(self.workers, self.capacity, self.items, self.driver_core, self.acknowledge)
            is None
    }

    /// The number of workers in the pool.
    pub closed spec fn spec_workers(&self) -> usize {
        self.workers
    }

    /// The most messages that a channel of the run holds at once.
    pub closed spec fn spec_capacity(&self) -> usize {
        self.capacity
    }

    /// The number of requests that the driver sends.
    pub closed spec fn spec_items(&self) -> usize {
        self.items
    }

    /// The core that the driver keeps for itself.
    pub closed spec fn spec_driver_core(&self) -> usize {
        self.driver_core
    }

    /// Whether each solved request is acknowledged with a token.
    pub closed spec fn spec_acknowledge(&self) -> bool {
        self.acknowledge
    }

    /// Puts the parameters together, or says why they are refused. Any
    /// number of items is accepted for a run without tokens.
    pub fn new(
        workers: usize,
        capacity: usize,
        items: usize,
        driver_core: usize,
        acknowledge: bool,
    ) -> (res: Result<BenchConfig, ConfigError>)
        ensures
            match refusal(workers, capacity, items, driver_core, acknowledge) {
                Some(e) => res is Err && res->Err_0 == e,
                None => {
                    &&& res is Ok
                    &&& res->Ok_0.spec_workers() == workers
                    &&& res->Ok_0.spec_capacity() == capacity
                    &&& res->Ok_0.spec_items() == items
                    &&& res->Ok_0.spec_driver_core() == driver_core
                    &&& res->Ok_0.spec_acknowledge() == acknowledge
                },
            },
    {
        if workers == 0 {
            Err(ConfigError::NoWorkers)
        } else if capacity == 0 {
            Err(ConfigError::NoCapacity)
        } else if capacity == usize::MAX {
            Err(ConfigError::CapacityTooLarge)
        } else if acknowledge && items == usize::MAX {
            Err(ConfigError::TooManyItems)
        } else if driver_core < workers {
            Err(ConfigError::DriverCoreTaken)
        } else {
            Ok(BenchConfig { workers, capacity, items, driver_core, acknowledge })
        }
    }

    /// The run with waiting workers: four of them on the cores 0 to 3, a
    /// hundred million requests, room for all of them in the channel, the
    /// driver on core 4, and a token for each solved request.
    pub fn blocking() -> (cfg: BenchConfig)
        ensures
            cfg.spec_workers() == 4,
            cfg.spec_capacity() == 100_000_000,
            cfg.spec_items() == 100_000_000,
            cfg.spec_driver_core() == 4,
            cfg.spec_acknowledge(),
    {
        BenchConfig {
            workers: 4,
            capacity: 100_000_000,
            items: 100_000_000,
            driver_core: 4,
            acknowledge: true,
        }
    }

    /// The run with one cooperative task per worker thread: three workers
    /// on the cores 0 to 2, a hundred million requests, room for all of
    /// them in the channel, the driver on core 3, and no tokens.
    pub fn cooperative() -> (cfg: BenchConfig)
        ensures
            cfg.spec_workers() == 3,
            cfg.spec_capacity() == 100_000_000,
            cfg.spec_items() == 100_000_000,
            cfg.spec_driver_core() == 3,
            !cfg.spec_acknowledge(),
    {
        BenchConfig {
            workers: 3,
            capacity: 100_000_000,
            items: 100_000_000,
            driver_core: 3,
            acknowledge: false,
        }
    }

    #[verifier::when_used_as_spec(spec_workers)]
    pub fn workers(&self) -> (n: usize)
        ensures
            n == self.spec_workers(),
            n >= 1,
    {
        proof {
            use_type_invariant(self);
        }
        self.workers
    }

    #[verifier::when_used_as_spec(spec_capacity)]
    pub fn capacity(&self) -> (n: usize)
        ensures
            n == self.spec_capacity(),
            1 <= n < usize::MAX,
    {
        proof {
            use_type_invariant(self);
        }
        self.capacity
    }

    #[verifier::when_used_as_spec(spec_items)]
    pub fn items(&self) -> (n: usize)
        ensures
            n == self.spec_items(),
            self.spec_acknowledge() ==> n < usize::MAX,
    {
        proof {
            use_type_invariant(self);
        }
        self.items
    }

    #[verifier::when_used_as_spec(spec_driver_core)]
    pub fn driver_core(&self) -> (core: usize)
        ensures
            core == self.spec_driver_core(),
            core >= self.spec_workers(),
    {
        proof {
            use_type_invariant(self);
        }
        self.driver_core
    }

    #[verifier::when_used_as_spec(spec_acknowledge)]
    pub fn acknowledge(&self) -> (b: bool)
        ensures
            b == self.spec_acknowledge(),
    {
        self.acknowledge
    }

    /// The core of the worker `id`: each worker has the core of its own
    /// number, so the workers of a run have the cores below its number of
    /// workers.
    pub fn worker_core(&self, id: usize) -> (core: usize)
        ensures
            core == id,
    {
        id
    }
}

} // verus!
