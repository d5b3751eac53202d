//! One unit of bytes with the address it goes to or came from.
use vstd::prelude::*;
use crate::address::SocketAddress;

verus! {

/// A datagram: the bytes of one payload and one socket address, the
/// destination on the way out and the source on the way in.
#[derive(Clone, Debug, PartialEq, Eq)]
pub struct Datagram {
    /// The bytes.
    pub payload: Vec<u8>,
    /// Where they go to, or where they came from.
    pub address: SocketAddress,
}

/// A datagram as a mathematical value.
pub struct DatagramView {
    /// The bytes.
    pub payload: Seq<u8>,
    /// Where they go to, or where they came from.
    pub address: SocketAddress,
}

/// One byte on its way to, or from, one address.
pub struct Octet {
    /// The byte.
    pub byte: u8,
    /// Where it goes to, or where it came from.
    pub address: SocketAddress,
}

impl DatagramView {
    /// The payload byte by byte, each with the datagram's address.
    pub open spec fn octets(self) -> Seq<Octet> {
        Seq::new(
            self.payload.len(),
            |i: int| Octet { byte: self.payload[i], address: self.address },
        )
    }
}

impl View for Datagram {
    type V = DatagramView;

    open spec fn view(&self) -> DatagramView {
        DatagramView { payload: self.payload@, address: self.address }
    }
}

impl Datagram {
    /// The datagram of `payload` and `address`.
    pub fn new(payload: Vec<u8>, address: SocketAddress) -> (datagram: Datagram)
        ensures
            datagram@ == (DatagramView { payload: payload@, address }),
    {
        Datagram { payload, address }
    }

    /// The number of bytes in the payload.
    pub fn len(&self) -> (len: usize)
        ensures
            len == self@.payload.len(),
    {
        self.payload.len()
    }
}

/// The bytes of `datagrams` one after the other, each with its address, in
/// the order of the datagrams.
pub open spec fn stream(datagrams: Seq<DatagramView>) -> Seq<Octet>
    decreases datagrams.len(),
{
    if datagrams.len() == 0 {
        Seq::empty()
    } else {
        datagrams[0].octets() + stream(datagrams.drop_first())
    }
}

/// The bytes of two runs of datagrams, one run after the other, are the
/// bytes of the first run followed by the bytes of the second.
pub proof fn lemma_stream_concat(first: Seq<DatagramView>, second: Seq<DatagramView>)
    ensures
        stream(first + second) == stream(first) + stream(second),
    decreases first.len(),
{
    if first.len() == 0 {
        assert(first + second =~= second);
        assert(stream(first) + stream(second) =~= stream(second));
    } else {
        assert((first + second).drop_first() =~= first.drop_first() + second);
        lemma_stream_concat(first.drop_first(), second);
        assert(stream(first + second) =~= stream(first) + stream(second));
    }
}

/// A run of one datagram has the bytes of that datagram.
pub proof fn lemma_stream_one(datagram: DatagramView)
    ensures
        stream(seq![datagram]) == datagram.octets(),
{
    let rest = seq![datagram].drop_first();
    assert(rest.len() == 0);
    assert(stream(rest) =~= Seq::<Octet>::empty());
    assert(stream(seq![datagram]) =~= datagram.octets());
}

} // verus!
