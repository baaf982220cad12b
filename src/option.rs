//! The benchmark's configuration, fixed once before anything runs.
use vstd::prelude::*;
use crate::error::BenchError;
use crate::path::node_path_template;
use crate::worker::{Worker, fresh};
use rand::RngCore;

verus! {

/// What a configuration holds.
pub struct BenchOptionView {
    pub hosts: Seq<char>,
    pub timeout_secs: u64,
    pub iteration: u32,
    pub threads: u32,
    pub ephemeral: bool,
    pub node_value: Seq<u8>,
    pub prefix: Seq<char>,
    pub node_path_template: Seq<char>,
    pub digest: Option<Seq<char>>,
}

impl BenchOptionView {
    pub open spec fn wf(self) -> bool {
        &&& 0 < self.threads <= self.iteration
        &&& self.node_path_template == self.prefix + "/test-node"@
    }
}

/// Relies on `rand::thread_rng` and `RngCore::fill_bytes`: a buffer of `size`
/// bytes, every one overwritten with random data.
#[verifier::external_body]
fn random_payload(size: usize) -> (r: Vec<u8>)
    ensures
        r@.len() == size,
{
    let mut buf = vec![0u8; size];
    rand::thread_rng().fill_bytes(&mut buf);
    buf
}

/// The configuration of one benchmark run.
#[derive(Debug)]
pub struct BenchOption {
    hosts: String,
    timeout_secs: u64,
    iteration: u32,
    threads: u32,
    ephemeral: bool,
    node_value: Vec<u8>,
    prefix: String,
    node_path_template: String,
    digest: Option<String>,
}

impl View for BenchOption {
    type V = BenchOptionView;

    closed spec fn view(&self) -> BenchOptionView {
        BenchOptionView {
            hosts: self.hosts@,
            timeout_secs: self.timeout_secs,
            iteration: self.iteration,
            threads: self.threads,
            ephemeral: self.ephemeral,
            node_value: self.node_value@,
            prefix: self.prefix@,
            node_path_template: self.node_path_template@,
            digest: match self.digest {
                Some(d) => Some(d@),
                None => None,
            },
        }
    }
}

impl BenchOption {
    #[verifier::type_invariant]
    spec fn inv(&self) -> bool {
        self@.wf()
    }

    /// A configuration with a fresh random payload of `node_size` bytes and
    /// the item template `prefix + "/test-node"`. Fails with `InvalidWorkers`
    /// unless `0 < threads <= iteration`.
    pub fn new(
        hosts: String,
        timeout_secs: u64,
        iteration: u32,
        threads: u32,
        node_size: usize,
        ephemeral: bool,
        prefix: String,
        digest: Option<String>,
    ) -> (r: Result<BenchOption, BenchError>)
        ensures
            r is Err <==> !(0 < threads <= iteration),
            r is Err ==> r == Err::<BenchOption, BenchError>(BenchError::InvalidWorkers),
            r matches Ok(o) ==> {
                &&& o@.wf()
                &&& o@.hosts == hosts@
                &&& o@.timeout_secs == timeout_secs
                &&& o@.iteration == iteration
                &&& o@.threads == threads
                &&& o@.ephemeral == ephemeral
                &&& o@.node_value.len() == node_size
                &&& o@.prefix == prefix@
                &&& o@.digest == match digest {
                    Some(d) => Some(d@),
                    None => None::<Seq<char>>,
                }
            },
    {
        if threads == 0 || threads > iteration {
            return Err(BenchError::InvalidWorkers);
        }
        let node_value = random_payload(node_size);
        let node_path_template = node_path_template(prefix.as_str());
        Ok(
            BenchOption {
                hosts,
                timeout_secs,
                iteration,
                threads,
                ephemeral,
                node_value,
                prefix,
                node_path_template,
                digest,
            },
        )
    }

    pub fn hosts(&self) -> (r: &str)
        ensures
            r@ == self@.hosts,
    {
        self.hosts.as_str()
    }

    pub fn timeout_secs(&self) -> (r: u64)
        ensures
            r == self@.timeout_secs,
    {
        self.timeout_secs
    }

    pub fn iteration(&self) -> (r: u32)
        ensures
            r == self@.iteration,
            r > 0,
    {
        proof {
            use_type_invariant(self);
        }
        self.iteration
    }

    pub fn threads(&self) -> (r: u32)
        ensures
            r == self@.threads,
            r > 0,
    {
        proof {
            use_type_invariant(self);
        }
        self.threads
    }

    pub fn ephemeral(&self) -> (r: bool)
        ensures
            r == self@.ephemeral,
    {
        self.ephemeral
    }

    pub fn node_value(&self) -> (r: &Vec<u8>)
        ensures
            r@ == self@.node_value,
    {
        &self.node_value
    }

    pub fn prefix(&self) -> (r: &str)
        ensures
            r@ == self@.prefix,
    {
        self.prefix.as_str()
    }

    pub fn node_path_template(&self) -> (r: &str)
        ensures
            r@ == self@.node_path_template,
    {
        self.node_path_template.as_str()
    }

    pub fn digest(&self) -> (r: Option<&str>)
        ensures
            r matches Some(d) ==> self@.digest == Some(d@),
            r is None ==> self@.digest is None,
    {
        match &self.digest {
            Some(d) => Some(d.as_str()),
            None => None,
        }
    }

    /// The worker with index `tid`, or `None` when there is no such worker.
    pub fn worker(&self, tid: u32) -> (r: Option<Worker>)
        ensures
            r is Some <==> tid < self@.threads,
            r matches Some(w) ==> w@ == fresh(
                self@.iteration as nat,
                self@.threads as nat,
                tid as nat,
            ) && w@.wf(),
    {
        proof {
            use_type_invariant(self);
        }
        if tid < self.threads {
            Some(Worker::new(self.iteration, self.threads, tid))
        } else {
            None
        }
    }
}

} // verus!
