//! What every file format offers.

use crate::errors::Error;
use crate::io::reader::ReadRoseExt;
use crate::io::wire::wrote;
use crate::io::writer::WriteRoseExt;
use vstd::prelude::*;

verus! {

/// A record that can be read from a stream and written to one.
///
/// The three spec functions say what the format is: which record stands at
/// an offset of a byte sequence, where a decode stops, and which bytes a
/// record is written as. The contracts of the methods are stated over them.
pub trait RoseFile: Sized + View {
    /// The record that stands at `pos`, with the position after it, or the
    /// reason why there is none.
    spec fn decoded(s: Seq<u8>, pos: nat) -> Result<(Self::V, nat), Error>;

    /// Where a decode that starts at `pos` leaves the cursor.
    spec fn stop(s: Seq<u8>, pos: nat) -> nat;

    /// The bytes that a record is written as, or nothing where the format
    /// cannot hold it.
    spec fn encoded(v: Self::V) -> Option<Seq<u8>>;

    /// The record that `new` makes.
    spec fn blank() -> Self::V;

    /// An empty record.
    fn new() -> (rf: Self)
        ensures
            rf@ == Self::blank(),
    ;

    /// Reads a record from the cursor onwards.
    fn from_reader<R: ReadRoseExt>(reader: &mut R) -> (r: Result<Self, Error>)
        ensures
            final(reader).stream() == old(reader).stream(),
            final(reader).offset() == Self::stop(old(reader).stream(), old(reader).offset()),
            match Self::decoded(old(reader).stream(), old(reader).offset()) {
                Ok((v, _)) => r is Ok && r->Ok_0@ == v,
                Err(e) => r is Err && r->Err_0 == e,
            },
    {
        let mut rf = Self::new();
        rf.read(reader)?;
        Ok(rf)
    }

    /// Reads a record from the cursor onwards into `self`, in place of what
    /// it held. Where the read fails, `self` is left as it was.
    fn read<R: ReadRoseExt>(&mut self, reader: &mut R) -> (r: Result<(), Error>)
        ensures
            final(reader).stream() == old(reader).stream(),
            final(reader).offset() == Self::stop(old(reader).stream(), old(reader).offset()),
            match Self::decoded(old(reader).stream(), old(reader).offset()) {
                Ok((v, _)) => r is Ok && final(self)@ == v,
                Err(e) => r == Err::<(), Error>(e) && *final(self) == *old(self),
            },
    ;

    /// Writes the record at the cursor. A record that the format cannot
    /// hold is refused before anything is written.
    fn write<W: WriteRoseExt>(&mut self, writer: &mut W) -> (r: Result<(), Error>)
        ensures
            *final(self) == *old(self),
            match Self::encoded(old(self)@) {
                Some(data) => r is Ok && wrote(
                    old(writer).stream(),
                    old(writer).offset(),
                    data,
                    final(writer).stream(),
                    final(writer).offset(),
                ),
                None => r == Err::<(), Error>(Error::TooLarge) && final(writer).stream() == old(
                    writer,
                ).stream() && final(writer).offset() == old(writer).offset(),
            },
    ;
}

} // verus!
