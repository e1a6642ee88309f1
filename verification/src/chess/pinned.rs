use crate::chess::bitboard::Bitboard;
use crate::chess::position::Position;
use crate::chess::rays::{self, spec_ray, Dir};
use crate::chess::side::Side;
use crate::chess::square::Square;
use vstd::prelude::*;

verus! {

impl Position {
    /// The pieces of the side to move that stand first on a straight line from `sq` with a
    /// rook or queen of the other side right behind them, and the lines from `sq` through them up to
    /// that slider.
    pub open spec fn spec_pinned_rook(self, sq: u8) -> (u64, u64) {
        let occ = self.occ();
        let q = self.them() & (self.pc(3) | self.pc(4));
        let p0 = 0u64;
        let x0 = 0u64;
        let r_n = spec_ray(Dir::North, sq, occ);
        let b_n = r_n & self.us();
        let xr_n = spec_ray(Dir::North, sq, occ ^ b_n);
        let c_n = b_n != 0 && xr_n & q != 0;
        let p1 = if c_n { p0 | b_n } else { p0 };
        let x1 = if c_n { x0 | xr_n } else { x0 };
        let r_e = spec_ray(Dir::East, sq, occ);
        let b_e = r_e & self.us();
        let xr_e = spec_ray(Dir::East, sq, occ ^ b_e);
        let c_e = b_e != 0 && xr_e & q != 0;
        let p2 = if c_e { p1 | b_e } else { p1 };
        let x2 = if c_e { x1 | xr_e } else { x1 };
        let r_s = spec_ray(Dir::South, sq, occ);
        let b_s = r_s & self.us();
        let xr_s = spec_ray(Dir::South, sq, occ ^ b_s);
        let c_s = b_s != 0 && xr_s & q != 0;
        let p3 = if c_s { p2 | b_s } else { p2 };
        let x3 = if c_s { x2 | xr_s } else { x2 };
        let r_w = spec_ray(Dir::West, sq, occ);
        let b_w = r_w & self.us();
        let xr_w = spec_ray(Dir::West, sq, occ ^ b_w);
        let c_w = b_w != 0 && xr_w & q != 0;
        let p4 = if c_w { p3 | b_w } else { p3 };
        let x4 = if c_w { x3 | xr_w } else { x3 };
        (p4, x4)
    }

    pub fn pinned_rook(&self, sq: Square, _side: Side) -> (r: (Bitboard, Bitboard))
        requires
            sq.valid(),
        ensures
            (r.0.0, r.1.0) == self.spec_pinned_rook(sq.0),
    {
        let mut pinned = Bitboard::empty();
        let mut xrays = Bitboard::empty();

        let q = self.get_them() & (self.get_rooks() | self.get_queens());

        let n = rays::ray_n(sq, self.get_occupied());
        if (n & self.get_us()).is_occupied() {
            let bb = n & self.get_us();
            let xray = rays::ray_n(sq, self.get_occupied() ^ bb);
            if (xray & q).is_occupied() {
                pinned = pinned | bb;
                xrays = xrays | xray;
            }
        }

        let e = rays::ray_e(sq, self.get_occupied());
        if (e & self.get_us()).is_occupied() {
            let bb = e & self.get_us();
            let xray = rays::ray_e(sq, self.get_occupied() ^ bb);
            if (xray & q).is_occupied() {
                pinned = pinned | bb;
                xrays = xrays | xray;
            }
        }

        let s = rays::ray_s(sq, self.get_occupied());
        if (s & self.get_us()).is_occupied() {
            let bb = s & self.get_us();
            let xray = rays::ray_s(sq, self.get_occupied() ^ bb);
            if (xray & q).is_occupied() {
                pinned = pinned | bb;
                xrays = xrays | xray;
            }
        }

        let w = rays::ray_w(sq, self.get_occupied());
        if (w & self.get_us()).is_occupied() {
            let bb = w & self.get_us();
            let xray = rays::ray_w(sq, self.get_occupied() ^ bb);
            if (xray & q).is_occupied() {
                pinned = pinned | bb;
                xrays = xrays | xray;
            }
        }

        (pinned, xrays)
    }

    /// The pieces of the side to move that stand first on a diagonal line from `sq` with a
    /// bishop or queen of the other side right behind them, and the lines from `sq` through them up to
    /// that slider.
    pub open spec fn spec_pinned_bishop(self, sq: u8) -> (u64, u64) {
        let occ = self.occ();
        let q = self.them() & (self.pc(2) | self.pc(4));
        let p0 = 0u64;
        let x0 = 0u64;
        let r_nw = spec_ray(Dir::NorthWest, sq, occ);
        let b_nw = r_nw & self.us();
        let xr_nw = spec_ray(Dir::NorthWest, sq, occ ^ b_nw);
        let c_nw = b_nw != 0 && xr_nw & q != 0;
        let p1 = if c_nw { p0 | b_nw } else { p0 };
        let x1 = if c_nw { x0 | xr_nw } else { x0 };
        let r_ne = spec_ray(Dir::NorthEast, sq, occ);
        let b_ne = r_ne & self.us();
        let xr_ne = spec_ray(Dir::NorthEast, sq, occ ^ b_ne);
        let c_ne = b_ne != 0 && xr_ne & q != 0;
        let p2 = if c_ne { p1 | b_ne } else { p1 };
        let x2 = if c_ne { x1 | xr_ne } else { x1 };
        let r_sw = spec_ray(Dir::SouthWest, sq, occ);
        let b_sw = r_sw & self.us();
        let xr_sw = spec_ray(Dir::SouthWest, sq, occ ^ b_sw);
        let c_sw = b_sw != 0 && xr_sw & q != 0;
        let p3 = if c_sw { p2 | b_sw } else { p2 };
        let x3 = if c_sw { x2 | xr_sw } else { x2 };
        let r_se = spec_ray(Dir::SouthEast, sq, occ);
        let b_se = r_se & self.us();
        let xr_se = spec_ray(Dir::SouthEast, sq, occ ^ b_se);
        let c_se = b_se != 0 && xr_se & q != 0;
        let p4 = if c_se { p3 | b_se } else { p3 };
        let x4 = if c_se { x3 | xr_se } else { x3 };
        (p4, x4)
    }

    pub fn pinned_bishop(&self, sq: Square, _side: Side) -> (r: (Bitboard, Bitboard))
        requires
            sq.valid(),
        ensures
            (r.0.0, r.1.0) == self.spec_pinned_bishop(sq.0),
    {
        let mut pinned = Bitboard::empty();
        let mut xrays = Bitboard::empty();

        let q = self.get_them() & (self.get_bishops() | self.get_queens());

        let nw = rays::ray_nw(sq, self.get_occupied());
        if (nw & self.get_us()).is_occupied() {
            let bb = nw & self.get_us();
            let xray = rays::ray_nw(sq, self.get_occupied() ^ bb);
            if (xray & q).is_occupied() {
                pinned = pinned | bb;
                xrays = xrays | xray;
            }
        }

        let ne = rays::ray_ne(sq, self.get_occupied());
        if (ne & self.get_us()).is_occupied() {
            let bb = ne & self.get_us();
            let xray = rays::ray_ne(sq, self.get_occupied() ^ bb);
            if (xray & q).is_occupied() {
                pinned = pinned | bb;
                xrays = xrays | xray;
            }
        }

        let sw = rays::ray_sw(sq, self.get_occupied());
        if (sw & self.get_us()).is_occupied() {
            let bb = sw & self.get_us();
            let xray = rays::ray_sw(sq, self.get_occupied() ^ bb);
            if (xray & q).is_occupied() {
                pinned = pinned | bb;
                xrays = xrays | xray;
            }
        }

        let se = rays::ray_se(sq, self.get_occupied());
        if (se & self.get_us()).is_occupied() {
            let bb = se & self.get_us();
            let xray = rays::ray_se(sq, self.get_occupied() ^ bb);
            if (xray & q).is_occupied() {
                pinned = pinned | bb;
                xrays = xrays | xray;
            }
        }

        (pinned, xrays)
    }

    /// The pieces of the side to move pinned to `sq`, on any line, and the lines of those pins.
    pub fn pinned(&self, sq: Square, side: Side) -> (r: (Bitboard, Bitboard))
        requires
            sq.valid(),
        ensures
            r.0.0 == self.spec_pinned_bishop(sq.0).0 | self.spec_pinned_rook(sq.0).0,
            r.1.0 == self.spec_pinned_bishop(sq.0).1 | self.spec_pinned_rook(sq.0).1,
    {
        let (bpinned, bxrays) = self.pinned_bishop(sq, side);
        let (rpinned, rxrays) = self.pinned_rook(sq, side);
        (bpinned | rpinned, bxrays | rxrays)
    }
}

} // verus!
