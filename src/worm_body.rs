use vstd::prelude::*;

use crate::error::NetworkError;
use crate::util::{
    bytes_to_color, bytes_to_positions, color_bytes, color_of, color_to_bytes, positions_bytes,
    positions_of, positions_to_bytes,
};

verus! {

/// A worm's shape: its owner, its RGBA color and the points of its body in
/// order. Color components and coordinates are the bit patterns of `f32`
/// values, which this layer passes through without reading them.
#[derive(Debug)]
pub struct WormBody {
    pub client_id: usize,
    pub color: (u32, u32, u32, u32),
    pub positions: Vec<(u32, u32)>,
}

/// The value of a [`WormBody`], with its points as a sequence.
pub struct WormBodyView {
    pub client_id: usize,
    pub color: (u32, u32, u32, u32),
    pub positions: Seq<(u32, u32)>,
}

impl View for WormBody {
    type V = WormBodyView;

    open spec fn view(&self) -> WormBodyView {
        WormBodyView { client_id: self.client_id, color: self.color, positions: self.positions@ }
    }
}

/// The bytes of a body on the wire: sixteen bytes of color, then eight bytes
/// for each point. The owner is not repeated: the enclosing message carries it.
pub open spec fn body_bytes(w: WormBodyView) -> Seq<u8> {
    color_bytes(w.color) + positions_bytes(w.positions)
}

/// What decoding `b` as the body of `client_id` gives.
pub open spec fn decode_body(client_id: usize, b: Seq<u8>) -> Result<WormBodyView, NetworkError> {
    if b.len() < 16 {
        Err(NetworkError::ShortMsg { expected_length: 16, actual_length: b.len() as usize })
    } else if (b.len() - 16) % 8 != 0 {
        Err(NetworkError::InvalidMsg { input_length: (b.len() - 16) as usize })
    } else {
        Ok(
            WormBodyView {
                client_id,
                color: color_of(b),
                positions: positions_of(b.skip(16)),
            },
        )
    }
}

/// The points of the body that [`WormBody::random`] hands out.
pub open spec fn initial_positions() -> Seq<(u32, u32)> {
    seq![
        (0xc48cde28, 0xc30073f4),
        (0xc48fdca3, 0xc2fde385),
        (0xc48f1d04, 0xc2fea49e),
        (0xc48e5d66, 0xc2ff65b6),
        (0xc48d9dc7, 0xc3001368),
        (0xc48cde28, 0xc30073f4),
    ]
}

impl WormBody {
    /// Decodes the body of `client_id` from its wire bytes: a color, then
    /// whole eight-byte points.
    pub fn new(client_id: usize, bytes: &[u8]) -> (r: Result<Self, NetworkError>)
        ensures
            match r {
                Ok(w) => decode_body(client_id, bytes@) == Ok::<WormBodyView, NetworkError>(w@),
                Err(e) => decode_body(client_id, bytes@) == Err::<WormBodyView, NetworkError>(e),
            },
    {
        if bytes.len() < 16 {
            return Err(NetworkError::ShortMsg { expected_length: 16, actual_length: bytes.len() });
        }
        let color = match bytes_to_color(vstd::slice::slice_subrange(bytes, 0, 16)) {
            Ok(c) => c,
            Err(e) => return Err(e),
        };
        let tail = vstd::slice::slice_subrange(bytes, 16, bytes.len());
        let positions = match bytes_to_positions(tail) {
            Ok(p) => p,
            Err(e) => return Err(e),
        };
        assert(color_of(bytes@.subrange(0, 16)) == color_of(bytes@));
        assert(tail@ =~= bytes@.skip(16));
        Ok(WormBody { client_id, color, positions })
    }

    /// The starting body handed to a player who joins: a black worm of six
    /// points.
    pub fn random(client_id: usize) -> (r: Self)
        ensures
            r@ == (WormBodyView {
                client_id,
                color: (0, 0, 0, 0),
                positions: initial_positions(),
            }),
    {
        let positions: Vec<(u32, u32)> = vec![
            (0xc48cde28, 0xc30073f4),
            (0xc48fdca3, 0xc2fde385),
            (0xc48f1d04, 0xc2fea49e),
            (0xc48e5d66, 0xc2ff65b6),
            (0xc48d9dc7, 0xc3001368),
            (0xc48cde28, 0xc30073f4),
        ];
        let r = WormBody { client_id, color: (0, 0, 0, 0), positions };
        assert(r@.positions =~= initial_positions());
        r
    }

    /// The wire bytes of the body: color, then points.
    pub fn make_bytes(&self) -> (r: Vec<u8>)
        ensures
            r@ == body_bytes(self@),
    {
        let mut bytes = color_to_bytes(&self.color);
        let mut points = positions_to_bytes(&self.positions);
        bytes.append(&mut points);
        bytes
    }
}

} // verus!
