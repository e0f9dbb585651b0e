//! What compiling a pipeline asks of its surroundings, and the replies to it.
//!
//! Compiling calls for projections that can be set up, for transformation
//! parameters that hold up, and for grids that can be loaded. The compiler
//! decides which of it is due and what becomes of each reply; whoever drives
//! the compiler performs it and records the reply in [`Services`].
use vstd::prelude::*;
use crate::crs::Projection;
use crate::error::{Error, ErrorView};
use crate::operation::{GeocentricAffineParams, GridKey, HelmertParams};

verus! {

/// One piece of work for the surroundings. The reply says whether it
/// succeeded.
#[derive(Clone, Copy, Debug, PartialEq, Eq, Structural)]
pub enum ServiceRequest {
    /// Sets up a projection.
    MakeProjection { projection: Projection },
    /// Checks the parameters of a Helmert transformation.
    ValidateHelmert { params: HelmertParams },
    /// Checks the parameters of an affine transformation.
    ValidateAffine { params: GeocentricAffineParams },
    /// Loads a grid.
    LoadGrid { grid: GridKey },
}

/// Why a compilation has not come to a pipeline.
#[derive(Debug, PartialEq, Eq)]
pub enum CompileHalt {
    /// It failed.
    Failed(Error),
    /// It waits for the reply to this request.
    Pending(ServiceRequest),
}

/// What a [`CompileHalt`] says.
pub enum CompileHaltView {
    Failed(ErrorView),
    Pending(ServiceRequest),
}

impl View for CompileHalt {
    type V = CompileHaltView;

    open spec fn view(&self) -> CompileHaltView {
        match *self {
            CompileHalt::Failed(error) => CompileHaltView::Failed(error@),
            CompileHalt::Pending(request) => CompileHaltView::Pending(request),
        }
    }
}

/// The replies to the requests made so far.
pub type ServiceReplies = Map<ServiceRequest, Result<(), ErrorView>>;

/// A reply, with the text of an error as a sequence of characters.
pub open spec fn service_reply_view(reply: Result<(), Error>) -> Result<(), ErrorView> {
    match reply {
        Ok(_) => Ok(()),
        Err(error) => Err(error@),
    }
}

/// The halt of a compilation, if it did not get through.
pub open spec fn halt_of<T>(result: Result<T, CompileHalt>) -> Option<CompileHaltView> {
    match result {
        Ok(_) => None,
        Err(halt) => Some(halt@),
    }
}

/// What `replies` make of a request: nothing if it succeeded, or else a halt.
pub open spec fn refused(replies: ServiceReplies, request: ServiceRequest) -> Option<
    CompileHaltView,
> {
    if replies.contains_key(request) {
        match replies[request] {
            Ok(_) => None,
            Err(error) => Some(CompileHaltView::Failed(error)),
        }
    } else {
        Some(CompileHaltView::Pending(request))
    }
}

/// The replies that a list records; a later one replaces an earlier one.
pub open spec fn services_recorded(
    entries: Seq<(ServiceRequest, Result<(), Error>)>,
) -> ServiceReplies
    decreases entries.len(),
{
    if entries.len() == 0 {
        Map::empty()
    } else {
        services_recorded(entries.drop_last()).insert(
            entries.last().0,
            service_reply_view(entries.last().1),
        )
    }
}

/// The replies to what a compilation asks of its surroundings.
pub struct Services {
    entries: Vec<(ServiceRequest, Result<(), Error>)>,
}

impl View for Services {
    type V = ServiceReplies;

    closed spec fn view(&self) -> ServiceReplies {
        services_recorded(self.entries@)
    }
}

impl Services {
    /// No replies.
    pub fn new() -> (services: Services)
        ensures
            services@ == ServiceReplies::empty(),
    {
        Services { entries: Vec::new() }
    }

    /// Records the reply to a request.
    pub fn record(&mut self, request: ServiceRequest, reply: Result<(), Error>)
        ensures
            final(self)@ == old(self)@.insert(request, service_reply_view(reply)),
    {
        self.entries.push((request, reply));
        assert(self.entries@.drop_last() =~= old(self).entries@);
    }

    /// Succeeds if the request did, or else halts: with the error of its
    /// reply, or waiting for it.
    pub fn perform(&self, request: ServiceRequest) -> (result: Result<(), CompileHalt>)
        ensures
            halt_of(result) == refused(self@, request),
    {
        let mut i: usize = self.entries.len();
        assert(self.entries@.take(i as int) =~= self.entries@);
        while i > 0
            invariant
                i <= self.entries@.len(),
                refused(services_recorded(self.entries@.take(i as int)), request) == refused(
                    self@,
                    request,
                ),
            decreases i,
        {
            let ghost prefix = self.entries@.take(i as int);
            i = i - 1;
            proof {
                assert(prefix.drop_last() =~= self.entries@.take(i as int));
                assert(prefix.last() == self.entries@[i as int]);
            }
            if self.entries[i].0 == request {
                return match &self.entries[i].1 {
                    Ok(_) => Ok(()),
                    Err(error) => Err(CompileHalt::Failed(error.clone())),
                };
            }
        }
        Err(CompileHalt::Pending(request))
    }
}

} // verus!
