//! Composition of the middleware chain: an ordered list of middlewares in
//! front of a terminal executor, and the continuation that hands a request
//! to the next stage. Running a stage (an async call) is the caller's part;
//! which stage comes next is decided here.
use vstd::prelude::*;

verus! {

/// An ordered middleware chain with a terminal executor.
pub struct Pipeline<M, T> {
    middlewares: Vec<M>,
    terminal: T,
}

/// Builder for a [`Pipeline`]: the first middleware added is the outermost.
pub struct PipelineBuilder<M> {
    middlewares: Vec<M>,
}

/// A continuation: the stages of a chain from some position on, then the
/// terminal.
pub struct Next<'a, M, T> {
    chain: &'a [M],
    position: usize,
    terminal: &'a T,
}

/// What a continuation runs: the next middleware (with the continuation that
/// follows it), or, once the chain is exhausted, the terminal.
pub enum NextStage<'a, M, T> {
    Middleware(&'a M, Next<'a, M, T>),
    Terminal(&'a T),
}

/// The continuation of a tool-level middleware chain in front of a tool
/// executor.
pub struct ToolNext<'a, M, E> {
    next: Next<'a, M, E>,
}

impl<M> PipelineBuilder<M> {
    /// The middlewares added so far, outermost first.
    pub closed spec fn stages(&self) -> Seq<M> {
        self.middlewares@
    }

    /// Adds a middleware inside those added before it.
    pub fn add(self, middleware: M) -> (b: Self)
        ensures
            b.stages() == self.stages().push(middleware),
    {
        let mut middlewares = self.middlewares;
        middlewares.push(middleware);
        PipelineBuilder { middlewares }
    }

    /// Adds the middleware when `condition` holds; otherwise returns the
    /// builder unchanged.
    pub fn add_if(self, condition: bool, middleware: M) -> (b: Self)
        ensures
            b.stages() == (if condition {
                self.stages().push(middleware)
            } else {
                self.stages()
            }),
    {
        if condition {
            self.add(middleware)
        } else {
            self
        }
    }

    /// The pipeline of the middlewares added, in front of `terminal`.
    pub fn build<T>(self, terminal: T) -> (p: Pipeline<M, T>)
        ensures
            p.stages() == self.stages(),
            p.terminal_spec() == terminal,
    {
        Pipeline { middlewares: self.middlewares, terminal }
    }
}

impl<M> Pipeline<M, ()> {
    /// An empty builder; `build` fixes the terminal's type.
    pub fn builder() -> (b: PipelineBuilder<M>)
        ensures
            b.stages() == Seq::<M>::empty(),
    {
        PipelineBuilder { middlewares: Vec::new() }
    }
}

impl<M, T> Pipeline<M, T> {
    /// The middlewares, outermost first.
    pub closed spec fn stages(&self) -> Seq<M> {
        self.middlewares@
    }

    /// The terminal executor.
    pub closed spec fn terminal_spec(&self) -> T {
        self.terminal
    }

    /// The number of middlewares.
    pub fn len(&self) -> (n: usize)
        ensures
            n == self.stages().len(),
    {
        self.middlewares.len()
    }

    /// Whether the pipeline has no middleware.
    pub fn is_empty(&self) -> (b: bool)
        ensures
            b <==> self.stages().len() == 0,
    {
        self.middlewares.len() == 0
    }

    /// The terminal executor.
    pub fn terminal(&self) -> (t: &T)
        ensures
            *t == self.terminal_spec(),
    {
        &self.terminal
    }

    /// The continuation that a request enters: the whole chain, then the
    /// terminal.
    pub fn start(&self) -> (n: Next<'_, M, T>)
        ensures
            n.rest() == self.stages(),
            n.terminal_spec() == self.terminal_spec(),
    {
        Next { chain: self.middlewares.as_slice(), position: 0, terminal: &self.terminal }
    }
}

impl<'a, M, T> Next<'a, M, T> {
    /// The middlewares still to run, in order.
    pub closed spec fn rest(&self) -> Seq<M> {
        self.chain@.skip(self.position as int)
    }

    /// The terminal reached once the chain is exhausted.
    pub closed spec fn terminal_spec(&self) -> T {
        *self.terminal
    }

    #[verifier::type_invariant]
    closed spec fn wf(&self) -> bool {
        self.position <= self.chain@.len()
    }

    /// Hands the request to the next stage: the first middleware still to run,
    /// with the continuation of the rest, or the terminal when none is left.
    pub fn run(self) -> (s: NextStage<'a, M, T>)
        ensures
            match s {
                NextStage::Middleware(m, n) => self.rest().len() > 0 && *m == self.rest()[0]
                    && n.rest() == self.rest().drop_first() && n.terminal_spec()
                    == self.terminal_spec(),
                NextStage::Terminal(t) => self.rest().len() == 0 && *t == self.terminal_spec(),
            },
    {
        proof {
            use_type_invariant(&self);
        }
        if self.position < self.chain.len() {
            let head = &self.chain[self.position];
            let next = Next { chain: self.chain, position: self.position + 1, terminal: self.terminal };
            proof {
                assert(self.chain@.skip(self.position + 1) =~= self.rest().drop_first());
            }
            NextStage::Middleware(head, next)
        } else {
            NextStage::Terminal(self.terminal)
        }
    }
}

impl<'a, M, E> ToolNext<'a, M, E> {
    /// The tool middlewares still to run, in order.
    pub closed spec fn rest(&self) -> Seq<M> {
        self.next.rest()
    }

    /// The executor reached once the chain is exhausted.
    pub closed spec fn executor_spec(&self) -> E {
        self.next.terminal_spec()
    }

    /// The continuation of the whole `chain` in front of `executor`.
    pub fn new(chain: &'a [M], executor: &'a E) -> (n: Self)
        ensures
            n.rest() == chain@,
            n.executor_spec() == *executor,
    {
        let n = ToolNext { next: Next { chain, position: 0, terminal: executor } };
        proof {
            assert(chain@.skip(0) =~= chain@);
        }
        n
    }

    /// Hands a tool call to the next stage: the first tool middleware still to
    /// run, with the continuation of the rest, or the executor.
    pub fn run(self) -> (s: (Option<(&'a M, ToolNext<'a, M, E>)>, &'a E))
        ensures
            s.1 == self.executor_spec(),
            match s.0 {
                Some((m, n)) => self.rest().len() > 0 && *m == self.rest()[0] && n.rest()
                    == self.rest().drop_first() && n.executor_spec() == self.executor_spec(),
                None => self.rest().len() == 0,
            },
    {
        let executor = self.next.terminal;
        match self.next.run() {
            NextStage::Middleware(m, n) => (Some((m, ToolNext { next: n })), executor),
            NextStage::Terminal(t) => (None, t),
        }
    }
}

/// A run enters the middlewares outermost first: a continuation whose stages
/// still to run are those after the first `k` of `stages` hands the request to
/// `stages[k]`, and the continuation it passes on holds those after the first
/// `k + 1`; once all are passed, the terminal runs.
pub proof fn lemma_outermost_first<M>(stages: Seq<M>, k: int)
    requires
        0 <= k <= stages.len(),
    ensures
        k < stages.len() ==> stages.skip(k).len() > 0 && stages.skip(k)[0] == stages[k]
            && stages.skip(k).drop_first() == stages.skip(k + 1),
        k == stages.len() ==> stages.skip(k).len() == 0,
{
    if k < stages.len() {
        assert(stages.skip(k).drop_first() =~= stages.skip(k + 1));
    }
}

} // verus!
