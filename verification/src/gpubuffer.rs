//! Client-side state machine of a GPU buffer that can be mapped into script
//! memory.
//!
//! The buffer lives in a remote device process and is identified by
//! `buffer_id`.  Mapping it is an asynchronous protocol: `MapAsync` validates
//! the request, moves the buffer to `MappingPending` and hands back the
//! `MapRequest` that must be sent to the device; `handle_response` installs
//! the bytes of the reply and settles the pending future; `GetMappedRange`
//! records aliasing views over the mapped bytes; `Unmap` and `Destroy` tear
//! the mapping down, detaching every outstanding view and reporting the
//! one-way notifications that must be sent.
//!
//! All transport is left to the embedder: an operation never performs a send
//! itself, it returns the messages and the settled futures as plain values.

use vstd::prelude::*;

verus! {

/// Map mode flag for a read mapping.
pub const MAP_MODE_READ: u32 = 1;

/// Map mode flag for a write mapping.
pub const MAP_MODE_WRITE: u32 = 2;

/// A view's offset into the buffer must be a multiple of this.
pub const RANGE_OFFSET_ALIGN: u64 = 8;

/// A view's size must be a multiple of this.
pub const RANGE_SIZE_ALIGN: u64 = 4;

/// Lifecycle state of the buffer; the single source of truth for which
/// operations are legal.
#[derive(Clone, Copy, PartialEq, Eq, Structural, Debug)]
pub enum GPUBufferState {
    Mapped,
    MappedAtCreation,
    MappingPending,
    Unmapped,
    Destroyed,
}

/// The two severities surfaced to a caller's future.
///
/// `Operation` marks caller misuse or a local inability to proceed; the
/// buffer stays usable.  `Abort` marks an error reported for one specific
/// asynchronous operation.
#[derive(Clone, Copy, PartialEq, Eq, Structural, Debug)]
pub enum ErrorClass {
    Operation,
    Abort,
}

/// Validation failures that are reported to the owning device's error scope
/// in addition to rejecting the caller's future.
#[derive(Clone, Copy, PartialEq, Eq, Structural, Debug)]
pub enum ValidationError {
    /// A map was requested while the buffer was not `Unmapped`.
    NotUnmapped,
    /// The requested map mode was neither read nor write.
    InvalidMapMode,
}

impl ValidationError {
    /// Diagnostic text for the device's error scope.
    pub fn message(&self) -> (r: String)
        ensures
            *self is NotUnmapped ==> r@ == "Buffer is not Unmapped"@,
            *self is InvalidMapMode ==> r@ == "Invalid MapModeFlags"@,
    {
        match self {
            ValidationError::NotUnmapped => "Buffer is not Unmapped".to_owned(),
            ValidationError::InvalidMapMode => "Invalid MapModeFlags".to_owned(),
        }
    }
}

/// How a map future stands: still pending, resolved, or rejected with an
/// error class.
#[derive(Clone, Copy, PartialEq, Eq, Structural, Debug)]
pub enum MapFutureState {
    Pending,
    Fulfilled,
    Rejected(ErrorClass),
}

/// The promise-like handle of one asynchronous map request.
///
/// A future settles at most once: once fulfilled or rejected, later
/// settlement attempts leave it unchanged.
#[derive(Clone, Copy, PartialEq, Eq, Structural, Debug)]
pub struct MapFuture {
    pub state: MapFutureState,
}

impl MapFuture {
    /// A fresh, pending future.
    pub fn new() -> (f: MapFuture)
        ensures
            f.state is Pending,
    {
        MapFuture { state: MapFutureState::Pending }
    }

    /// Resolve the future; a no-op once it is already settled.
    pub fn resolve(&mut self)
        ensures
            old(self).state is Pending ==> final(self).state is Fulfilled,
            !(old(self).state is Pending) ==> *final(self) == *old(self),
    {
        if let MapFutureState::Pending = self.state {
            self.state = MapFutureState::Fulfilled;
        }
    }

    /// Reject the future with an error class; a no-op once it is already
    /// settled.
    pub fn reject(&mut self, e: ErrorClass)
        ensures
            old(self).state is Pending ==> final(self).state == MapFutureState::Rejected(e),
            !(old(self).state is Pending) ==> *final(self) == *old(self),
    {
        if let MapFutureState::Pending = self.state {
            self.state = MapFutureState::Rejected(e);
        }
    }
}

/// One view handed out over the mapped bytes: the half-open byte interval
/// `[start, end)` of the buffer that the view aliases.
///
/// A view is identified by its index in the registry of the mapping that
/// issued it; views are only ever removed all at once, when that mapping is
/// discarded, so the index stays valid for the mapping's whole life.
#[derive(Clone, Copy, PartialEq, Eq, Structural, Debug)]
pub struct MappedView {
    pub start: u64,
    pub end: u64,
}

/// Do the byte ranges of `v` and `[offset, offset + vsize)` not overlap?
pub open spec fn view_clear_of(v: MappedView, offset: u64, vsize: u64) -> bool {
    v.start >= offset + vsize || v.end <= offset
}

/// May a view `[offset, offset + vsize)` be created over a mapping of range
/// `[range_start, range_end)` that already handed out `views`?
///
/// This is the whole precondition of view creation: alignment of offset and
/// size, containment in the mapped range, and disjointness from every
/// existing view.
pub open spec fn can_add_view(
    range_start: u64,
    range_end: u64,
    views: Seq<MappedView>,
    offset: u64,
    vsize: u64,
) -> bool {
    &&& offset % RANGE_OFFSET_ALIGN == 0
    &&& vsize % RANGE_SIZE_ALIGN == 0
    &&& range_start <= offset
    &&& offset + vsize <= range_end
    &&& forall|i: int| 0 <= i < views.len() ==> view_clear_of(#[trigger] views[i], offset, vsize)
}

/// The mapping region: the owned bytes backing a mapped buffer, the byte
/// range of the buffer they cover, and the views handed out over them.
///
/// Present exactly while the buffer is `MappingPending`, `Mapped` or
/// `MappedAtCreation`.
#[derive(Debug)]
pub struct GPUBufferMapInfo {
    /// The bytes of the mapped range; byte `i` of the range
    /// `[mapping_range_start, mapping_range_end)` is `mapping[i]`.
    pub mapping: Vec<u8>,
    /// Start of the mapped byte range of the buffer.
    pub mapping_range_start: u64,
    /// End (exclusive) of the mapped byte range of the buffer.
    pub mapping_range_end: u64,
    /// The live views, pairwise disjoint, each inside the mapped range.
    pub mapped_ranges: Vec<MappedView>,
    /// The mode the map was requested with, when one was.
    pub map_mode: Option<u32>,
}

impl GPUBufferMapInfo {
    /// Well-formedness of a mapping region: an ordered range, every view
    /// inside it, and no two views overlapping.
    pub open spec fn wf(self) -> bool {
        &&& self.mapping_range_start <= self.mapping_range_end
        &&& forall|i: int|
            0 <= i < self.mapped_ranges@.len() ==> {
                let v = #[trigger] self.mapped_ranges@[i];
                self.mapping_range_start <= v.start && v.start <= v.end && v.end
                    <= self.mapping_range_end
            }
        &&& forall|i: int, j: int|
            0 <= i < self.mapped_ranges@.len() && 0 <= j < self.mapped_ranges@.len() && i != j
                ==> views_disjoint(
                #[trigger] self.mapped_ranges@[i],
                #[trigger] self.mapped_ranges@[j],
            )
    }
}

/// Do the byte ranges of two views not overlap?
pub open spec fn views_disjoint(v: MappedView, w: MappedView) -> bool {
    v.end <= w.start || w.end <= v.start
}

/// Does this state carry a mapping region?
pub open spec fn has_region(state: GPUBufferState) -> bool {
    state is Mapped || state is MappedAtCreation || state is MappingPending
}

/// The state/region consistency of a buffer: a region exists exactly in the
/// states that carry one, it is well formed, and no view exists before the
/// mapped bytes have arrived.
pub open spec fn region_consistent(state: GPUBufferState, map_info: Option<GPUBufferMapInfo>) -> bool {
    &&& map_info is Some <==> has_region(state)
    &&& map_info matches Some(mi) ==> mi.wf()
    &&& state is MappingPending ==> (map_info matches Some(mi) && mi.mapped_ranges@.len() == 0)
}

/// The asynchronous map request that must be sent to the device process.
#[derive(Clone, Copy, PartialEq, Eq, Structural, Debug)]
pub struct MapRequest {
    pub buffer_id: u64,
    pub device_id: u64,
    /// The validated mode: `MAP_MODE_READ` or `MAP_MODE_WRITE`.
    pub mode: u32,
    pub range_start: u64,
    pub range_end: u64,
}

/// What `MapAsync` decided.
#[derive(Debug)]
pub enum MapAsyncOutcome {
    /// The request must be sent to the device; the buffer now stores the
    /// pending future.
    Pending(MapRequest),
    /// Nothing was sent and the buffer did not change.  The returned future
    /// is already settled; a validation error, when present, must also be
    /// reported to the device's error scope.
    Rejected { future: MapFuture, validation: Option<ValidationError> },
}

/// The effective size of a map request: an explicit size is taken as given;
/// an omitted one defaults to the rest of the buffer, which exists only when
/// the offset lies inside the buffer.
pub open spec fn map_async_size(buffer_size: u64, offset: u64, size: Option<u64>) -> Option<u64> {
    match size {
        Some(s) => Some(s),
        None => if offset < buffer_size {
            Some((buffer_size - offset) as u64)
        } else {
            None
        },
    }
}

/// The one-way notification that returns the mapped bytes to the device on
/// unmap.
#[derive(Debug)]
pub struct UnmapNotify {
    pub buffer_id: u64,
    pub device_id: u64,
    /// The current content of the mapping region, handed back whole.
    pub bytes: Vec<u8>,
    /// Whether the mapping was requested for reading.
    pub is_map_read: bool,
    /// Start of the mapped range.
    pub offset: u64,
    /// Size of the mapped range.
    pub size: u64,
}

/// The one-way notification that releases the remote buffer.
#[derive(Clone, Copy, PartialEq, Eq, Structural, Debug)]
pub struct DestroyNotify {
    pub buffer_id: u64,
}

/// The one-way notification that a map request's future has settled, sent so
/// the device can release its tracking of the request.
#[derive(Clone, Copy, PartialEq, Eq, Structural, Debug)]
pub struct MapCompleteNotify {
    pub buffer_id: u64,
}

/// Everything `Unmap` asks of the embedder: the notification to send when a
/// mapping was live, the views that must be detached from their backing
/// memory right away, and the pending future it rejected when a map was
/// still in flight.
#[derive(Debug)]
pub struct UnmapOutcome {
    pub notify: Option<UnmapNotify>,
    pub detached: Vec<MappedView>,
    pub cancelled: Option<MapFuture>,
}

/// Everything `Destroy` asks of the embedder.
#[derive(Debug)]
pub struct DestroyOutcome {
    /// The unmap that ran first, when the buffer was mapped.
    pub unmap: Option<UnmapOutcome>,
    /// The destroy notification; sent unless the buffer was already
    /// destroyed.
    pub notify: Option<DestroyNotify>,
    /// The pending future rejected when a map was still in flight.
    pub cancelled: Option<MapFuture>,
}

/// The device's reply to a map request: the mapped bytes, or a failure.
#[derive(Debug)]
pub enum MapResponse {
    Bytes(Vec<u8>),
    Error,
}

/// What handling a reply asks of the embedder: the settled future to mirror
/// onto the caller's promise, and the completion notification, sent whether
/// the reply was a success or a failure.
#[derive(Debug)]
pub struct ResponseOutcome {
    pub settled: Option<MapFuture>,
    pub complete: MapCompleteNotify,
}

/// Is `n` the unmap notification owed for a buffer `pre` whose mapping
/// region was `omi`?  The bytes delivered are exactly the region's current
/// content, and the reported range is exactly the mapped range.
pub open spec fn unmap_notify_for(pre: GPUBuffer, omi: GPUBufferMapInfo, n: UnmapNotify) -> bool {
    &&& n.buffer_id == pre.buffer_id
    &&& n.device_id == pre.device_id
    &&& n.bytes@ == omi.mapping@
    &&& n.is_map_read == (omi.map_mode == Some(MAP_MODE_READ))
    &&& n.offset == omi.mapping_range_start
    &&& n.size == omi.mapping_range_end - omi.mapping_range_start
}

/// A GPU buffer handle as script sees it: the identity of the remote
/// resource, the lifecycle state, the mapping region while one exists, and
/// the single in-flight future of an asynchronous map request.
#[derive(Debug)]
pub struct GPUBuffer {
    pub label: String,
    pub state: GPUBufferState,
    /// Identifies the buffer on the remote device; never changes.
    pub buffer_id: u64,
    /// Identifies the owning device; never changes.
    pub device_id: u64,
    /// Size of the buffer in bytes; never changes.
    pub size: u64,
    /// The pending future of an outstanding map request, if any.
    pub map_promise: Option<MapFuture>,
    /// The mapping region, present exactly while `has_region(state)`.
    pub map_info: Option<GPUBufferMapInfo>,
}

impl GPUBuffer {
    /// The buffer's invariant: state and region are consistent, and a stored
    /// future exists only while a map is pending and is itself still pending.
    pub open spec fn wf(self) -> bool {
        &&& region_consistent(self.state, self.map_info)
        &&& self.map_promise is Some ==> self.state is MappingPending
        &&& self.map_promise matches Some(f) ==> f.state is Pending
    }

    /// The fields that no operation but construction ever changes.
    pub open spec fn same_identity(self, other: GPUBuffer) -> bool {
        &&& self.buffer_id == other.buffer_id
        &&& self.device_id == other.device_id
        &&& self.size == other.size
        &&& self.label == other.label
    }

    /// Build a buffer from its parts.  The parts must already be consistent:
    /// a region is given exactly for the states that carry one.
    pub fn new_inherited(
        buffer_id: u64,
        device_id: u64,
        state: GPUBufferState,
        size: u64,
        map_info: Option<GPUBufferMapInfo>,
        label: String,
    ) -> (b: GPUBuffer)
        requires
            region_consistent(state, map_info),
        ensures
            b.wf(),
            b.buffer_id == buffer_id,
            b.device_id == device_id,
            b.state == state,
            b.size == size,
            b.map_info == map_info,
            b.label == label,
            b.map_promise is None,
    {
        GPUBuffer {
            label,
            state,
            buffer_id,
            device_id,
            size,
            map_promise: None,
            map_info,
        }
    }

    /// Build a buffer from its parts; same contract as `new_inherited`.
    pub fn new(
        buffer_id: u64,
        device_id: u64,
        state: GPUBufferState,
        size: u64,
        map_info: Option<GPUBufferMapInfo>,
        label: String,
    ) -> (b: GPUBuffer)
        requires
            region_consistent(state, map_info),
        ensures
            b.wf(),
            b.buffer_id == buffer_id,
            b.device_id == device_id,
            b.state == state,
            b.size == size,
            b.map_info == map_info,
            b.label == label,
            b.map_promise is None,
    {
        GPUBuffer::new_inherited(buffer_id, device_id, state, size, map_info, label)
    }

    /// The identity of the buffer on the remote device.
    pub fn id(&self) -> (r: u64)
        ensures
            r == self.buffer_id,
    {
        self.buffer_id
    }

    /// The current lifecycle state.
    pub fn state(&self) -> (r: GPUBufferState)
        ensures
            r == self.state,
    {
        self.state
    }

    /// The buffer's label.
    pub fn Label(&self) -> (r: String)
        ensures
            r == self.label,
    {
        self.label.clone()
    }

    /// Replace the buffer's label; legal in every state.
    pub fn SetLabel(&mut self, value: String)
        ensures
            *final(self) == (GPUBuffer { label: value, ..*old(self) }),
    {
        self.label = value;
    }

    /// Request that the buffer be mapped.
    ///
    /// The guards run in a fixed order.  First the effective size is
    /// computed: with no explicit size an offset at or past the end of the
    /// buffer rejects the future with an `Operation` error before anything
    /// else is looked at.  Then a buffer that is not `Unmapped` rejects with
    /// an `Abort` error and a validation report, leaving the buffer — and in
    /// particular an already-pending future — untouched.  Then an invalid
    /// mode rejects likewise.  Otherwise the buffer moves to
    /// `MappingPending` with a fresh empty region and a fresh pending
    /// future, and the request to send is returned.
    pub fn MapAsync(&mut self, mode: u32, offset: u64, size: Option<u64>) -> (o: MapAsyncOutcome)
        requires
            old(self).wf(),
            // Only the transition that builds the request range does any
            // arithmetic; a rejection tolerates any explicit size.
            old(self).state is Unmapped && (mode == MAP_MODE_READ || mode == MAP_MODE_WRITE)
                && (size is Some) ==> offset + size.unwrap() <= u64::MAX,
        ensures
            final(self).wf(),
            map_async_size(old(self).size, offset, size) is None ==> {
                &&& *final(self) == *old(self)
                &&& o matches MapAsyncOutcome::Rejected { future, validation }
                    && future.state == MapFutureState::Rejected(ErrorClass::Operation)
                    && validation is None
            },
            map_async_size(old(self).size, offset, size) is Some && !(old(self).state is Unmapped)
                ==> {
                &&& *final(self) == *old(self)
                &&& o matches MapAsyncOutcome::Rejected { future, validation }
                    && future.state == MapFutureState::Rejected(ErrorClass::Abort)
                    && validation == Some(ValidationError::NotUnmapped)
            },
            map_async_size(old(self).size, offset, size) is Some && old(self).state is Unmapped
                && mode != MAP_MODE_READ && mode != MAP_MODE_WRITE ==> {
                &&& *final(self) == *old(self)
                &&& o matches MapAsyncOutcome::Rejected { future, validation }
                    && future.state == MapFutureState::Rejected(ErrorClass::Abort)
                    && validation == Some(ValidationError::InvalidMapMode)
            },
            map_async_size(old(self).size, offset, size) is Some && old(self).state
                is Unmapped && (mode == MAP_MODE_READ || mode == MAP_MODE_WRITE) ==> {
                let es = map_async_size(old(self).size, offset, size).unwrap();
                &&& o == MapAsyncOutcome::Pending(
                    MapRequest {
                        buffer_id: old(self).buffer_id,
                        device_id: old(self).device_id,
                        mode,
                        range_start: offset,
                        range_end: (offset + es) as u64,
                    },
                )
                &&& final(self).state is MappingPending
                &&& final(self).map_promise matches Some(f) && f.state is Pending
                &&& final(self).map_info matches Some(mi) && {
                    &&& mi.mapping@ == Seq::<u8>::empty()
                    &&& mi.mapping_range_start == offset
                    &&& mi.mapping_range_end == offset + es
                    &&& mi.mapped_ranges@ == Seq::<MappedView>::empty()
                    &&& mi.map_mode == Some(mode)
                }
                &&& final(self).same_identity(*old(self))
            },
    {
        let range_size: u64 = match size {
            Some(s) => s,
            None => {
                if offset >= self.size {
                    return MapAsyncOutcome::Rejected {
                        future: MapFuture { state: MapFutureState::Rejected(ErrorClass::Operation) },
                        validation: None,
                    };
                }
                self.size - offset
            },
        };
        if self.state != GPUBufferState::Unmapped {
            return MapAsyncOutcome::Rejected {
                future: MapFuture { state: MapFutureState::Rejected(ErrorClass::Abort) },
                validation: Some(ValidationError::NotUnmapped),
            };
        }
        if mode != MAP_MODE_READ && mode != MAP_MODE_WRITE {
            return MapAsyncOutcome::Rejected {
                future: MapFuture { state: MapFutureState::Rejected(ErrorClass::Abort) },
                validation: Some(ValidationError::InvalidMapMode),
            };
        }
        let range_end: u64 = offset + range_size;
        self.state = GPUBufferState::MappingPending;
        self.map_info = Some(
            GPUBufferMapInfo {
                mapping: Vec::new(),
                mapping_range_start: offset,
                mapping_range_end: range_end,
                mapped_ranges: Vec::new(),
                map_mode: Some(mode),
            },
        );
        self.map_promise = Some(MapFuture::new());
        MapAsyncOutcome::Pending(
            MapRequest {
                buffer_id: self.buffer_id,
                device_id: self.device_id,
                mode,
                range_start: offset,
                range_end,
            },
        )
    }

    /// Record that sending a map request failed.
    ///
    /// A send failure is a soft failure: the pending future is rejected with
    /// an `Operation` error and the buffer reverts to `Unmapped`, discarding
    /// the empty region, so no orphaned `MappingPending` state remains.
    pub fn map_request_send_failed(&mut self) -> (cancelled: Option<MapFuture>)
        requires
            old(self).wf(),
        ensures
            final(self).wf(),
            old(self).map_promise is Some ==> {
                &&& cancelled matches Some(c) && c.state == MapFutureState::Rejected(
                    ErrorClass::Operation,
                )
                &&& *final(self) == (GPUBuffer {
                    state: GPUBufferState::Unmapped,
                    map_info: None,
                    map_promise: None,
                    ..*old(self)
                })
            },
            old(self).map_promise is None ==> *final(self) == *old(self) && cancelled is None,
    {
        match self.map_promise.take() {
            Some(mut f) => {
                f.reject(ErrorClass::Operation);
                self.state = GPUBufferState::Unmapped;
                self.map_info = None;
                Some(f)
            },
            None => None,
        }
    }

    /// Unmap the buffer.
    ///
    /// Idempotent: a buffer that is `Unmapped` or `Destroyed` is left alone.
    /// A mapped buffer hands back its bytes in an `UnmapNotify` and lists
    /// every outstanding view for immediate detachment, so no view survives
    /// its backing storage.  A buffer with a map still in flight rejects the
    /// pending future with an `Operation` error instead.  In every case the
    /// region is discarded and the state ends `Unmapped`, except for the
    /// no-op states.
    pub fn Unmap(&mut self) -> (o: UnmapOutcome)
        requires
            old(self).wf(),
        ensures
            final(self).wf(),
            (old(self).state is Unmapped || old(self).state is Destroyed) ==> {
                &&& *final(self) == *old(self)
                &&& o.notify is None && o.detached@.len() == 0 && o.cancelled is None
            },
            (old(self).state is Mapped || old(self).state is MappedAtCreation) ==> {
                &&& old(self).map_info matches Some(omi) && {
                    &&& o.notify matches Some(n) && unmap_notify_for(*old(self), omi, n)
                    &&& o.detached@ == omi.mapped_ranges@
                }
                &&& o.cancelled is None
                &&& *final(self) == (GPUBuffer {
                    state: GPUBufferState::Unmapped,
                    map_info: None,
                    map_promise: None,
                    ..*old(self)
                })
            },
            old(self).state is MappingPending ==> {
                &&& o.notify is None && o.detached@.len() == 0
                &&& (old(self).map_promise matches Some(f) ==> o.cancelled matches Some(c)
                    && c.state == MapFutureState::Rejected(ErrorClass::Operation))
                &&& (old(self).map_promise is None ==> o.cancelled is None)
                &&& *final(self) == (GPUBuffer {
                    state: GPUBufferState::Unmapped,
                    map_info: None,
                    map_promise: None,
                    ..*old(self)
                })
            },
    {
        match self.state {
            GPUBufferState::Unmapped | GPUBufferState::Destroyed => UnmapOutcome {
                notify: None,
                detached: Vec::new(),
                cancelled: None,
            },
            GPUBufferState::Mapped | GPUBufferState::MappedAtCreation => {
                let mi = self.map_info.take().unwrap();
                let is_map_read = match mi.map_mode {
                    Some(m) => m == MAP_MODE_READ,
                    None => false,
                };
                let notify = UnmapNotify {
                    buffer_id: self.buffer_id,
                    device_id: self.device_id,
                    bytes: mi.mapping,
                    is_map_read,
                    offset: mi.mapping_range_start,
                    size: mi.mapping_range_end - mi.mapping_range_start,
                };
                self.state = GPUBufferState::Unmapped;
                UnmapOutcome { notify: Some(notify), detached: mi.mapped_ranges, cancelled: None }
            },
            GPUBufferState::MappingPending => {
                let cancelled = match self.map_promise.take() {
                    Some(mut f) => {
                        f.reject(ErrorClass::Operation);
                        Some(f)
                    },
                    None => None,
                };
                self.map_info = None;
                self.state = GPUBufferState::Unmapped;
                UnmapOutcome { notify: None, detached: Vec::new(), cancelled }
            },
        }
    }

    /// Destroy the buffer.
    ///
    /// Idempotent: a destroyed buffer is left alone and nothing more is
    /// sent.  A mapped buffer is unmapped first, with everything that
    /// entails; a buffer with a map still in flight rejects the pending
    /// future with an `Abort` error, so the future is never left dangling.
    /// The destroy notification is sent exactly once, on the transition into
    /// `Destroyed`.
    pub fn Destroy(&mut self) -> (o: DestroyOutcome)
        requires
            old(self).wf(),
        ensures
            final(self).wf(),
            old(self).state is Destroyed ==> {
                &&& *final(self) == *old(self)
                &&& o.unmap is None && o.notify is None && o.cancelled is None
            },
            !(old(self).state is Destroyed) ==> {
                &&& o.notify == Some(DestroyNotify { buffer_id: old(self).buffer_id })
                &&& *final(self) == (GPUBuffer {
                    state: GPUBufferState::Destroyed,
                    map_info: None,
                    map_promise: None,
                    ..*old(self)
                })
            },
            (old(self).state is Mapped || old(self).state is MappedAtCreation) ==> {
                &&& old(self).map_info matches Some(omi) && o.unmap matches Some(u) && {
                    &&& u.notify matches Some(n) && unmap_notify_for(*old(self), omi, n)
                    &&& u.detached@ == omi.mapped_ranges@
                    &&& u.cancelled is None
                }
                &&& o.cancelled is None
            },
            old(self).state is MappingPending ==> {
                &&& o.unmap is None
                &&& (old(self).map_promise matches Some(f) ==> o.cancelled matches Some(c)
                    && c.state == MapFutureState::Rejected(ErrorClass::Abort))
                &&& (old(self).map_promise is None ==> o.cancelled is None)
            },
            old(self).state is Unmapped ==> o.unmap is None && o.cancelled is None,
    {
        match self.state {
            GPUBufferState::Destroyed => DestroyOutcome {
                unmap: None,
                notify: None,
                cancelled: None,
            },
            GPUBufferState::Mapped | GPUBufferState::MappedAtCreation => {
                let u = self.Unmap();
                self.state = GPUBufferState::Destroyed;
                DestroyOutcome {
                    unmap: Some(u),
                    notify: Some(DestroyNotify { buffer_id: self.buffer_id }),
                    cancelled: None,
                }
            },
            GPUBufferState::MappingPending => {
                let cancelled = match self.map_promise.take() {
                    Some(mut f) => {
                        f.reject(ErrorClass::Abort);
                        Some(f)
                    },
                    None => None,
                };
                self.map_info = None;
                self.state = GPUBufferState::Destroyed;
                DestroyOutcome {
                    unmap: None,
                    notify: Some(DestroyNotify { buffer_id: self.buffer_id }),
                    cancelled,
                }
            },
            GPUBufferState::Unmapped => {
                self.state = GPUBufferState::Destroyed;
                DestroyOutcome {
                    unmap: None,
                    notify: Some(DestroyNotify { buffer_id: self.buffer_id }),
                    cancelled: None,
                }
            },
        }
    }

    /// Handle the device's reply to the outstanding map request.
    ///
    /// While a future is pending, a successful reply installs the returned
    /// bytes as the region's storage, moves the buffer to `Mapped` and
    /// resolves the future; a failed reply rejects the future with an
    /// `Abort` error and changes nothing else.  Without a pending future the
    /// buffer is left alone.  The completion notification is owed in every
    /// case, success or failure.
    pub fn handle_response(&mut self, response: MapResponse) -> (o: ResponseOutcome)
        requires
            old(self).wf(),
        ensures
            final(self).wf(),
            o.complete == (MapCompleteNotify { buffer_id: old(self).buffer_id }),
            old(self).map_promise is None ==> *final(self) == *old(self) && (o.settled is None),
            old(self).map_promise is Some && response is Bytes ==> {
                &&& o.settled matches Some(f) && f.state is Fulfilled
                &&& final(self).state is Mapped
                &&& final(self).map_promise is None
                &&& old(self).map_info matches Some(omi) && final(self).map_info matches Some(fmi)
                    && {
                    &&& fmi.mapping@ == response->0@
                    &&& fmi.mapping_range_start == omi.mapping_range_start
                    &&& fmi.mapping_range_end == omi.mapping_range_end
                    &&& fmi.mapped_ranges@ == omi.mapped_ranges@
                    &&& fmi.map_mode == omi.map_mode
                }
                &&& final(self).same_identity(*old(self))
            },
            old(self).map_promise is Some && response is Error ==> {
                &&& o.settled matches Some(f)
                    && f.state == MapFutureState::Rejected(ErrorClass::Abort)
                &&& *final(self) == (GPUBuffer { map_promise: None, ..*old(self) })
            },
    {
        let complete_notify = MapCompleteNotify { buffer_id: self.buffer_id };
        let settled = match self.map_promise.take() {
            None => None,
            Some(mut f) => {
                match response {
                    MapResponse::Bytes(bytes) => {
                        let mut mi = self.map_info.take().unwrap();
                        mi.mapping = bytes;
                        self.map_info = Some(mi);
                        self.state = GPUBufferState::Mapped;
                        f.resolve();
                    },
                    MapResponse::Error => {
                        f.reject(ErrorClass::Abort);
                    },
                }
                Some(f)
            },
        };
        ResponseOutcome { settled, complete: complete_notify }
    }

    /// The effective size of a view request over this buffer's mapping: an
    /// explicit size is taken as given; an omitted one defaults to the rest
    /// of the mapped range, which exists only when the offset lies before
    /// its end.
    pub open spec fn view_size(self, offset: u64, size: Option<u64>) -> Option<u64> {
        match size {
            Some(s) => Some(s),
            None => {
                if self.map_info matches Some(mi) && offset < mi.mapping_range_end {
                    Some((self.map_info.unwrap().mapping_range_end - offset) as u64)
                } else {
                    None
                }
            },
        }
    }

    /// The whole precondition of `GetMappedRange`: a mapped buffer, an
    /// effective size, and a view that is aligned, inside the mapped range
    /// and clear of every existing view.
    pub open spec fn can_get_mapped_range(self, offset: u64, size: Option<u64>) -> bool {
        &&& self.state is Mapped || self.state is MappedAtCreation
        &&& self.map_info matches Some(mi) && self.view_size(offset, size) matches Some(es)
            && can_add_view(
            mi.mapping_range_start,
            mi.mapping_range_end,
            mi.mapped_ranges@,
            offset,
            es,
        )
    }

    /// Create a view over `[offset, offset + size)` of the mapped bytes.
    ///
    /// Succeeds exactly when the buffer is mapped, the offset and size meet
    /// their alignments, the range lies inside the mapped range, and it
    /// overlaps no existing view; every failure is an `Operation` error that
    /// leaves the buffer unchanged.  On success the view is recorded and its
    /// handle — its index in the registry — is returned.
    pub fn GetMappedRange(&mut self, offset: u64, size: Option<u64>) -> (r: Result<
        usize,
        ErrorClass,
    >)
        requires
            old(self).wf(),
        ensures
            final(self).wf(),
            r is Ok <==> old(self).can_get_mapped_range(offset, size),
            r matches Ok(i) ==> {
                let es = old(self).view_size(offset, size).unwrap();
                &&& old(self).map_info matches Some(omi) && final(self).map_info matches Some(fmi)
                    && {
                    &&& i == omi.mapped_ranges@.len()
                    &&& fmi.mapped_ranges@ == omi.mapped_ranges@.push(
                        MappedView { start: offset, end: (offset + es) as u64 },
                    )
                    &&& fmi.mapping@ == omi.mapping@
                    &&& fmi.mapping_range_start == omi.mapping_range_start
                    &&& fmi.mapping_range_end == omi.mapping_range_end
                    &&& fmi.map_mode == omi.map_mode
                }
                &&& final(self).state == old(self).state
                &&& final(self).map_promise == old(self).map_promise
                &&& final(self).same_identity(*old(self))
            },
            r is Err ==> *final(self) == *old(self) && r == Err::<usize, ErrorClass>(
                ErrorClass::Operation,
            ),
    {
        match self.state {
            GPUBufferState::Mapped | GPUBufferState::MappedAtCreation => {},
            _ => {
                return Err(ErrorClass::Operation);
            },
        }
        let mi = self.map_info.take().unwrap();
        let range_size: u64 = match size {
            Some(s) => s,
            None => {
                if offset >= mi.mapping_range_end {
                    self.map_info = Some(mi);
                    return Err(ErrorClass::Operation);
                }
                mi.mapping_range_end - offset
            },
        };
        let aligned = offset % RANGE_OFFSET_ALIGN == 0 && range_size % RANGE_SIZE_ALIGN == 0;
        let contained = offset >= mi.mapping_range_start && offset <= mi.mapping_range_end
            && range_size <= mi.mapping_range_end - offset;
        if !(aligned && contained) {
            self.map_info = Some(mi);
            return Err(ErrorClass::Operation);
        }
        let m_end: u64 = offset + range_size;
        let mut idx: usize = 0;
        while idx < mi.mapped_ranges.len()
            invariant
                old(self).wf(),
                old(self).map_info == Some(mi),
                old(self).state is Mapped || old(self).state is MappedAtCreation,
                self.state == old(self).state,
                self.map_promise == old(self).map_promise,
                self.same_identity(*old(self)),
                (self.map_info is None),
                idx <= mi.mapped_ranges@.len(),
                m_end == offset + range_size,
                old(self).view_size(offset, size) == Some(range_size),
                offset % RANGE_OFFSET_ALIGN == 0 && range_size % RANGE_SIZE_ALIGN == 0,
                mi.mapping_range_start <= offset && offset + range_size <= mi.mapping_range_end,
                forall|k: int|
                    0 <= k < idx ==> view_clear_of(
                        #[trigger] mi.mapped_ranges@[k],
                        offset,
                        range_size,
                    ),
            decreases mi.mapped_ranges@.len() - idx,
        {
            let v = mi.mapped_ranges[idx];
            if v.start < m_end && v.end > offset {
                self.map_info = Some(mi);
                return Err(ErrorClass::Operation);
            }
            idx += 1;
        }
        let mut mi = mi;
        let ghost prior = mi.mapped_ranges@;
        let index = mi.mapped_ranges.len();
        mi.mapped_ranges.push(MappedView { start: offset, end: m_end });
        proof {
            let all = mi.mapped_ranges@;
            assert forall|i: int, j: int|
                0 <= i < all.len() && 0 <= j < all.len() && i != j implies views_disjoint(
                #[trigger] all[i],
                #[trigger] all[j],
            ) by {
                if i == prior.len() {
                    assert(view_clear_of(prior[j], offset, range_size));
                } else if j == prior.len() {
                    assert(view_clear_of(prior[i], offset, range_size));
                }
            }
        }
        self.map_info = Some(mi);
        Ok(index)
    }

    /// May the view with handle `index` still be used to reach its bytes?
    ///
    /// A view is usable while the mapping that issued it is alive, the
    /// buffer is in a mapped state, and the view's window lies inside the
    /// bytes the region currently holds.  Unmapping or destroying the buffer
    /// discards the registry, so every handle dies with its mapping.
    pub open spec fn view_usable(self, index: int) -> bool {
        &&& self.state is Mapped || self.state is MappedAtCreation
        &&& self.map_info matches Some(mi) && {
            &&& 0 <= index < mi.mapped_ranges@.len()
            &&& mi.mapped_ranges@[index].end - mi.mapping_range_start <= mi.mapping@.len()
        }
    }

    /// The byte range `[start, end)` of the view with handle `index`, while
    /// a mapping is alive and the handle belongs to it.
    pub fn view_range(&self, index: usize) -> (r: Option<(u64, u64)>)
        ensures
            (match self.map_info {
                Some(mi) => if index < mi.mapped_ranges@.len() {
                    r == Some(
                        (mi.mapped_ranges@[index as int].start, mi.mapped_ranges@[index as int].end),
                    )
                } else {
                    r is None
                },
                None => r is None,
            }),
    {
        match &self.map_info {
            Some(mi) => {
                if index < mi.mapped_ranges.len() {
                    let v = mi.mapped_ranges[index];
                    Some((v.start, v.end))
                } else {
                    None
                }
            },
            None => None,
        }
    }

    /// Read the bytes of the view with handle `index`.
    ///
    /// Succeeds exactly while the view is usable; the returned bytes are the
    /// view's window of the mapping region's storage.
    pub fn read_view(&self, index: usize) -> (r: Result<Vec<u8>, ErrorClass>)
        requires
            self.wf(),
        ensures
            r is Ok <==> self.view_usable(index as int),
            r matches Ok(bytes) ==> {
                let mi = self.map_info.unwrap();
                let v = mi.mapped_ranges@[index as int];
                bytes@ == mi.mapping@.subrange(
                    v.start - mi.mapping_range_start,
                    v.end - mi.mapping_range_start,
                )
            },
            r is Err ==> r == Err::<Vec<u8>, ErrorClass>(ErrorClass::Operation),
    {
        match self.state {
            GPUBufferState::Mapped | GPUBufferState::MappedAtCreation => {},
            _ => {
                return Err(ErrorClass::Operation);
            },
        }
        let mi = match &self.map_info {
            Some(mi) => mi,
            None => {
                return Err(ErrorClass::Operation);
            },
        };
        if index >= mi.mapped_ranges.len() {
            return Err(ErrorClass::Operation);
        }
        let v = mi.mapped_ranges[index];
        let lo64: u64 = v.start - mi.mapping_range_start;
        let hi64: u64 = v.end - mi.mapping_range_start;
        if hi64 > mi.mapping.len() as u64 {
            return Err(ErrorClass::Operation);
        }
        let lo: usize = lo64 as usize;
        let hi: usize = hi64 as usize;
        let mut bytes: Vec<u8> = Vec::new();
        let mut i: usize = lo;
        while i < hi
            invariant
                lo <= i <= hi <= mi.mapping@.len(),
                bytes@ == mi.mapping@.subrange(lo as int, i as int),
            decreases hi - i,
        {
            bytes.push(mi.mapping[i]);
            proof {
                assert(bytes@ =~= mi.mapping@.subrange(lo as int, i + 1));
            }
            i += 1;
        }
        Ok(bytes)
    }

    /// Write `data` over the whole window of the view with handle `index`.
    ///
    /// Succeeds exactly while the view is usable and `data` is the view's
    /// size; the mapping region's storage changes in the view's window and
    /// nowhere else, and nothing else of the buffer changes.
    pub fn write_view(&mut self, index: usize, data: &Vec<u8>) -> (r: Result<(), ErrorClass>)
        requires
            old(self).wf(),
        ensures
            final(self).wf(),
            r is Ok <==> old(self).view_usable(index as int) && {
                let v = old(self).map_info.unwrap().mapped_ranges@[index as int];
                data@.len() == v.end - v.start
            },
            r matches Ok(u) ==> {
                let omi = old(self).map_info.unwrap();
                let v = omi.mapped_ranges@[index as int];
                let lo = v.start - omi.mapping_range_start;
                &&& final(self).map_info matches Some(fmi) && {
                    &&& fmi.mapping@ == omi.mapping@.subrange(0, lo).add(data@).add(
                        omi.mapping@.subrange(lo + data@.len(), omi.mapping@.len() as int),
                    )
                    &&& fmi.mapping_range_start == omi.mapping_range_start
                    &&& fmi.mapping_range_end == omi.mapping_range_end
                    &&& fmi.mapped_ranges@ == omi.mapped_ranges@
                    &&& fmi.map_mode == omi.map_mode
                }
                &&& final(self).state == old(self).state
                &&& final(self).map_promise == old(self).map_promise
                &&& final(self).same_identity(*old(self))
            },
            r is Err ==> *final(self) == *old(self) && r == Err::<(), ErrorClass>(
                ErrorClass::Operation,
            ),
    {
        match self.state {
            GPUBufferState::Mapped | GPUBufferState::MappedAtCreation => {},
            _ => {
                return Err(ErrorClass::Operation);
            },
        }
        let mut mi = self.map_info.take().unwrap();
        if index >= mi.mapped_ranges.len() {
            self.map_info = Some(mi);
            return Err(ErrorClass::Operation);
        }
        let v = mi.mapped_ranges[index];
        let lo64: u64 = v.start - mi.mapping_range_start;
        let hi64: u64 = v.end - mi.mapping_range_start;
        if hi64 > mi.mapping.len() as u64 || data.len() as u64 != v.end - v.start {
            self.map_info = Some(mi);
            return Err(ErrorClass::Operation);
        }
        let lo: usize = lo64 as usize;
        let ghost original = mi.mapping@;
        let mut i: usize = 0;
        while i < data.len()
            invariant
                i <= data@.len(),
                lo + data@.len() <= original.len(),
                original.len() <= usize::MAX,
                mi.mapping@.len() == original.len(),
                original == old(self).map_info.unwrap().mapping@,
                mi.mapping_range_start == old(self).map_info.unwrap().mapping_range_start,
                mi.mapping_range_end == old(self).map_info.unwrap().mapping_range_end,
                mi.mapped_ranges@ == old(self).map_info.unwrap().mapped_ranges@,
                mi.map_mode == old(self).map_info.unwrap().map_mode,
                (old(self).map_info is Some),
                old(self).wf(),
                forall|k: int| 0 <= k < lo ==> mi.mapping@[k] == original[k],
                forall|k: int| 0 <= k < i ==> mi.mapping@[lo + k] == data@[k],
                forall|k: int|
                    lo + data@.len() <= k < original.len() ==> mi.mapping@[k] == original[k],
            decreases data@.len() - i,
        {
            let b = data[i];
            mi.mapping.set(lo + i, b);
            i += 1;
        }
        proof {
            assert(mi.mapping@ =~= original.subrange(0, lo as int).add(data@).add(
                original.subrange(lo + data@.len(), original.len() as int),
            ));
        }
        self.map_info = Some(mi);
        Ok(())
    }
}

/// The view that a successful `GetMappedRange(offset, size)` records.
pub open spec fn view_of(offset: u64, vsize: u64) -> MappedView {
    MappedView { start: offset, end: (offset + vsize) as u64 }
}

/// Law of the view registry: over one mapping, two disjoint admissible views
/// may be created one after the other, and once both are recorded a third
/// view overlapping either of them is refused.
///
/// `can_add_view` is exactly the success condition of `GetMappedRange`, and
/// recording a view is exactly a push onto the registry, so this speaks of
/// two successful `GetMappedRange` calls followed by a failing one.
pub proof fn lemma_disjoint_views(
    range_start: u64,
    range_end: u64,
    views: Seq<MappedView>,
    o1: u64,
    s1: u64,
    o2: u64,
    s2: u64,
    o3: u64,
    s3: u64,
)
    requires
        can_add_view(range_start, range_end, views, o1, s1),
        can_add_view(range_start, range_end, views, o2, s2),
        o1 + s1 <= o2 || o2 + s2 <= o1,
        !view_clear_of(view_of(o1, s1), o3, s3) || !view_clear_of(view_of(o2, s2), o3, s3),
    ensures
        can_add_view(range_start, range_end, views.push(view_of(o1, s1)), o2, s2),
        !can_add_view(
            range_start,
            range_end,
            views.push(view_of(o1, s1)).push(view_of(o2, s2)),
            o3,
            s3,
        ),
{
    let v1 = view_of(o1, s1);
    let v2 = view_of(o2, s2);
    let w1 = views.push(v1);
    let w2 = w1.push(v2);
    assert forall|i: int| 0 <= i < w1.len() implies view_clear_of(#[trigger] w1[i], o2, s2) by {
        if i < views.len() {
            assert(view_clear_of(views[i], o2, s2));
        }
    }
    if !view_clear_of(v1, o3, s3) {
        assert(w2[views.len() as int] == v1);
    } else {
        assert(w2[views.len() as int + 1] == v2);
    }
}

/// Law of the lifecycle: a well-formed buffer — which every operation takes
/// and returns — carries a mapping region exactly in the states that call
/// for one, never exposes a view before the mapped bytes have arrived, and
/// stores a future only while a map is pending, and then a pending one.
pub proof fn lemma_state_region_consistent(b: GPUBuffer)
    requires
        b.wf(),
    ensures
        b.map_info is Some <==> has_region(b.state),
        b.state is MappingPending ==> b.map_info.unwrap().mapped_ranges@.len() == 0,
        b.map_promise is Some ==> b.state is MappingPending
            && b.map_promise.unwrap().state is Pending,
{
}

/// Law of the unmap round trip: the notification always delivers the
/// region's storage byte for byte, with every view write included; and when
/// that storage has the mapped range's length — the library cannot force the
/// device's reply to, but a well-sized reply installed by `handle_response`
/// does, and view writes keep the length — the payload is also exactly the
/// range's size.
pub proof fn lemma_unmap_payload_exact(pre: GPUBuffer, omi: GPUBufferMapInfo, n: UnmapNotify)
    requires
        unmap_notify_for(pre, omi, n),
        omi.mapping@.len() == omi.mapping_range_end - omi.mapping_range_start,
    ensures
        n.bytes@ == omi.mapping@,
        n.bytes@.len() == n.size,
        n.offset == omi.mapping_range_start,
{
}

/// Law of teardown: a buffer whose mapping has been discarded — the state
/// `Unmap` and `Destroy` leave behind — has no usable view left, whatever
/// handle a caller may have retained.
pub proof fn lemma_teardown_detaches_views(b: GPUBuffer, index: int)
    requires
        b.wf(),
        b.state is Unmapped || b.state is Destroyed,
    ensures
        !b.view_usable(index),
{
}

} // verus!
