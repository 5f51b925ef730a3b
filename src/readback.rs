use vstd::prelude::*;

verus! {

/// The device buffer a readback copies.
#[derive(Debug, Clone, Copy, PartialEq, Eq, Structural)]
pub enum ReadbackSource {
    /// The current field, one `f32` per cell.
    Data,
    /// The colour map, four bytes per cell in padded rows.
    Colormap,
}

/// Where the staging buffer stands in the readback protocol.
#[derive(Debug, Clone, Copy, PartialEq, Eq, Structural)]
pub enum StagingState {
    /// Unmapped and free: a copy may go into it.
    Unmapped,
    /// A copy of `bytes` bytes from `source` and a map of the staging buffer
    /// are queued; the map has not completed.
    Pending { source: ReadbackSource, bytes: u64 },
    /// Mapped and readable; its bytes have not been taken.
    Mapped { source: ReadbackSource, bytes: u64 },
    /// Its bytes were taken; it stays mapped until it is unmapped.
    Taken { source: ReadbackSource },
    /// The map failed or timed out; the buffer is not mapped.
    Failed,
}

/// What a poll of the readback reports.
#[derive(Debug, Clone, Copy, PartialEq, Eq, Structural)]
pub enum ReadbackStatus {
    /// No readback is waiting to be taken.
    Idle,
    /// The map has not completed.
    Pending,
    /// The bytes can be taken.
    Ready,
    /// The map failed; request again from scratch.
    Failed,
}

/// A misuse of the readback protocol, or a failed readback.
#[derive(Debug, Clone, Copy, PartialEq, Eq, Structural)]
pub enum ReadbackError {
    /// A readback is still in flight on the staging buffer.
    InFlight,
    /// The staging buffer is still mapped: unmap it before the next copy.
    StillMapped,
    /// The map has not completed yet.
    NotReady,
    /// The map failed or timed out.
    MapFailed,
    /// No readback is waiting to be taken.
    NothingRequested,
    /// The mapped range holds `actual` bytes where `expected` were copied.
    SizeMismatch { expected: u64, actual: u64 },
}

/// The host's record of one staging buffer, which guards the order of
/// copy, map, read and unmap: one readback at a time, no copy into a
/// mapped buffer, no read before the map completes.
pub struct Staging {
    state: StagingState,
}

impl View for Staging {
    type V = StagingState;

    closed spec fn view(&self) -> StagingState {
        self.state
    }
}

impl Staging {
    /// A staging buffer that holds no readback.
    pub fn new() -> (r: Self)
        ensures
            r@ == StagingState::Unmapped,
    {
        Staging { state: StagingState::Unmapped }
    }

    /// Where the staging buffer stands.
    pub fn state(&self) -> (r: StagingState)
        ensures
            r == self@,
    {
        self.state
    }

    /// Starts a readback of `bytes` bytes from `source`: allowed when the
    /// staging buffer is unmapped or its last map failed. Fails with
    /// `InFlight` while a readback is pending and with `StillMapped` while
    /// the buffer is mapped; a refused request changes nothing.
    pub fn request(&mut self, source: ReadbackSource, bytes: u64) -> (r: Result<(), ReadbackError>)
        ensures
            match old(self)@ {
                StagingState::Unmapped | StagingState::Failed => {
                    &&& r == Ok::<(), ReadbackError>(())
                    &&& final(self)@ == (StagingState::Pending { source, bytes })
                },
                StagingState::Pending { .. } => {
                    &&& r == Err::<(), ReadbackError>(ReadbackError::InFlight)
                    &&& final(self)@ == old(self)@
                },
                StagingState::Mapped { .. } | StagingState::Taken { .. } => {
                    &&& r == Err::<(), ReadbackError>(ReadbackError::StillMapped)
                    &&& final(self)@ == old(self)@
                },
            },
    {
        match self.state {
            StagingState::Unmapped | StagingState::Failed => {
                self.state = StagingState::Pending { source, bytes };
                Ok(())
            },
            StagingState::Pending { .. } => Err(ReadbackError::InFlight),
            StagingState::Mapped { .. } | StagingState::Taken { .. } => Err(ReadbackError::StillMapped),
        }
    }

    /// The device reports the end of the pending map: the buffer is mapped
    /// when `succeeded`, failed otherwise. With no map pending, nothing
    /// changes.
    pub fn map_finished(&mut self, succeeded: bool)
        ensures
            match old(self)@ {
                StagingState::Pending { source, bytes } => final(self)@ == if succeeded {
                    StagingState::Mapped { source, bytes }
                } else {
                    StagingState::Failed
                },
                _ => final(self)@ == old(self)@,
            },
    {
        if let StagingState::Pending { source, bytes } = self.state {
            self.state = if succeeded {
                StagingState::Mapped { source, bytes }
            } else {
                StagingState::Failed
            };
        }
    }

    /// The wait for the pending map ran out: the readback fails, and may be
    /// requested again. With no map pending, nothing changes.
    pub fn timed_out(&mut self)
        ensures
            match old(self)@ {
                StagingState::Pending { .. } => final(self)@ == StagingState::Failed,
                _ => final(self)@ == old(self)@,
            },
    {
        if let StagingState::Pending { .. } = self.state {
            self.state = StagingState::Failed;
        }
    }

    /// Where the readback stands: `Ready` when mapped and not yet taken.
    pub fn poll(&self) -> (r: ReadbackStatus)
        ensures
            r == match self@ {
                StagingState::Unmapped | StagingState::Taken { .. } => ReadbackStatus::Idle,
                StagingState::Pending { .. } => ReadbackStatus::Pending,
                StagingState::Mapped { .. } => ReadbackStatus::Ready,
                StagingState::Failed => ReadbackStatus::Failed,
            },
    {
        match self.state {
            StagingState::Unmapped | StagingState::Taken { .. } => ReadbackStatus::Idle,
            StagingState::Pending { .. } => ReadbackStatus::Pending,
            StagingState::Mapped { .. } => ReadbackStatus::Ready,
            StagingState::Failed => ReadbackStatus::Failed,
        }
    }

    /// Takes the mapped bytes once the map has completed: `mapped` must
    /// hold as many bytes as were copied, else `SizeMismatch`. Fails with
    /// `NotReady` while pending, `MapFailed` after a failed map and
    /// `NothingRequested` when no readback waits; a failed take changes
    /// nothing. The buffer stays mapped until `unmap`.
    pub fn take(&mut self, mapped: Vec<u8>) -> (r: Result<Vec<u8>, ReadbackError>)
        ensures
            match old(self)@ {
                StagingState::Mapped { source, bytes } => if mapped@.len() == bytes {
                    &&& r matches Ok(v) && v@ == mapped@
                    &&& final(self)@ == (StagingState::Taken { source })
                } else {
                    &&& r == Err::<Vec<u8>, ReadbackError>(
                        ReadbackError::SizeMismatch { expected: bytes, actual: mapped@.len() as u64 },
                    )
                    &&& final(self)@ == old(self)@
                },
                StagingState::Pending { .. } => {
                    &&& r == Err::<Vec<u8>, ReadbackError>(ReadbackError::NotReady)
                    &&& final(self)@ == old(self)@
                },
                StagingState::Failed => {
                    &&& r == Err::<Vec<u8>, ReadbackError>(ReadbackError::MapFailed)
                    &&& final(self)@ == old(self)@
                },
                StagingState::Unmapped | StagingState::Taken { .. } => {
                    &&& r == Err::<Vec<u8>, ReadbackError>(ReadbackError::NothingRequested)
                    &&& final(self)@ == old(self)@
                },
            },
    {
        match self.state {
            StagingState::Mapped { source, bytes } => {
                let actual = mapped.len() as u64;
                if actual == bytes {
                    self.state = StagingState::Taken { source };
                    Ok(mapped)
                } else {
                    Err(ReadbackError::SizeMismatch { expected: bytes, actual })
                }
            },
            StagingState::Pending { .. } => Err(ReadbackError::NotReady),
            StagingState::Failed => Err(ReadbackError::MapFailed),
            StagingState::Unmapped | StagingState::Taken { .. } => Err(
                ReadbackError::NothingRequested,
            ),
        }
    }

    /// Releases the staging buffer for the next copy. Refused with
    /// `InFlight` while a map is pending; otherwise the buffer ends
    /// unmapped, whether or not its bytes were taken.
    pub fn unmap(&mut self) -> (r: Result<(), ReadbackError>)
        ensures
            match old(self)@ {
                StagingState::Pending { .. } => {
                    &&& r == Err::<(), ReadbackError>(ReadbackError::InFlight)
                    &&& final(self)@ == old(self)@
                },
                _ => {
                    &&& r == Ok::<(), ReadbackError>(())
                    &&& final(self)@ == StagingState::Unmapped
                },
            },
    {
        match self.state {
            StagingState::Pending { .. } => Err(ReadbackError::InFlight),
            _ => {
                self.state = StagingState::Unmapped;
                Ok(())
            },
        }
    }
}

} // verus!
