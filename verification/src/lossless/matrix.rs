//! Bit-packed matrices: consecutive rows are packed together, tile by tile.
use vstd::arithmetic::div_mod::*;
use vstd::prelude::*;
use vstd::slice::slice_subrange;

use super::bf16;
use super::bitpack;

verus! {

/// The first row of the `tile`-th tile, or the number of rows behind the last one.
pub open spec fn tile_start(rows: int, tile_rows: int, tile: int) -> int {
    if tile * tile_rows <= rows {
        tile * tile_rows
    } else {
        rows
    }
}

/// The number of tiles that cover the rows.
pub open spec fn tile_count(rows: int, tile_rows: int) -> int {
    (rows + tile_rows - 1) / tile_rows
}

/// The bytes of the rows of a tile.
pub open spec fn tile_bytes(
    source: Seq<u8>,
    rows: int,
    columns: int,
    tile_rows: int,
    tile: int,
) -> Seq<u8> {
    source.subrange(
        tile_start(rows, tile_rows, tile) * (2 * columns),
        tile_start(rows, tile_rows, tile + 1) * (2 * columns),
    )
}

/// The packed forms of the first `tiles` tiles, one after the other.
pub open spec fn packed_tiles(
    source: Seq<u8>,
    rows: int,
    columns: int,
    tile_rows: int,
    tiles: int,
) -> Seq<u8>
    decreases tiles,
{
    if tiles <= 0 {
        Seq::empty()
    } else {
        packed_tiles(source, rows, columns, tile_rows, tiles - 1) + bitpack::bitpacked(
            bf16::values_of(tile_bytes(source, rows, columns, tile_rows, tiles - 1)),
        )
    }
}

/// Where each packed tile starts, and where the last one ends.
pub open spec fn tile_offsets(
    source: Seq<u8>,
    rows: int,
    columns: int,
    tile_rows: int,
    tiles: int,
) -> Seq<u32> {
    Seq::new(
        (tiles + 1) as nat,
        |tile: int| packed_tiles(source, rows, columns, tile_rows, tile).len() as u32,
    )
}

pub open spec fn matrix_encoding(
    source: Seq<u8>,
    rows: int,
    columns: int,
    tile_rows: int,
) -> Result<(Seq<u8>, Seq<u32>), Seq<char>> {
    let tiles = tile_count(rows, tile_rows);
    let packed = packed_tiles(source, rows, columns, tile_rows, tiles);
    if rows == 0 || columns == 0 || tile_rows == 0 {
        Err("BF16 bitpack matrix dimensions must be non-zero"@)
    } else if 2 * columns > usize::MAX {
        Err("BF16 bitpack matrix row byte length overflow"@)
    } else if rows * (2 * columns) > usize::MAX {
        Err("BF16 bitpack matrix dimensions overflow"@)
    } else if source.len() != rows * (2 * columns) {
        Err("BF16 bitpack matrix byte length does not match dimensions"@)
    } else if packed.len() > u32::MAX {
        Err("BF16 bitpack matrix exceeds 4 GiB offset range"@)
    } else {
        Ok((packed, tile_offsets(source, rows, columns, tile_rows, tiles)))
    }
}

/// The outcome of packing a matrix with its vectors taken by their views.
pub open spec fn matrix_outcome(result: Result<(Vec<u8>, Vec<u32>), String>) -> Result<
    (Seq<u8>, Seq<u32>),
    Seq<char>,
> {
    match result {
        Ok(encoded) => Ok((encoded.0@, encoded.1@)),
        Err(message) => Err(message@),
    }
}

proof fn lemma_packed_grows(
    source: Seq<u8>,
    rows: int,
    columns: int,
    tile_rows: int,
    tile: int,
    tiles: int,
)
    requires
        0 <= tile <= tiles,
    ensures
        packed_tiles(source, rows, columns, tile_rows, tile).len() <= packed_tiles(
            source,
            rows,
            columns,
            tile_rows,
            tiles,
        ).len(),
        packed_tiles(source, rows, columns, tile_rows, tiles).take(
            packed_tiles(source, rows, columns, tile_rows, tile).len() as int,
        ) == packed_tiles(source, rows, columns, tile_rows, tile),
    decreases tiles - tile,
{
    let whole = packed_tiles(source, rows, columns, tile_rows, tiles);
    let part = packed_tiles(source, rows, columns, tile_rows, tile);
    if tile == tiles {
        assert(whole.take(part.len() as int) =~= part);
    } else {
        lemma_packed_grows(source, rows, columns, tile_rows, tile, tiles - 1);
        let shorter = packed_tiles(source, rows, columns, tile_rows, tiles - 1);
        assert(whole.take(part.len() as int) =~= shorter.take(part.len() as int));
    }
}

/// A tile of a matrix is a non-empty even number of bytes within the matrix.
proof fn lemma_tile(source: Seq<u8>, rows: int, columns: int, tile_rows: int, tile: int)
    requires
        rows > 0,
        columns > 0,
        tile_rows > 0,
        source.len() == rows * (2 * columns),
        0 <= tile < tile_count(rows, tile_rows),
    ensures
        0 <= tile_start(rows, tile_rows, tile) < tile_start(rows, tile_rows, tile + 1) <= rows,
        tile_start(rows, tile_rows, tile) == tile * tile_rows,
        0 <= tile_start(rows, tile_rows, tile) * (2 * columns) < tile_start(
            rows,
            tile_rows,
            tile + 1,
        ) * (2 * columns) <= source.len(),
        tile_bytes(source, rows, columns, tile_rows, tile).len() % 2 == 0,
        tile_bytes(source, rows, columns, tile_rows, tile).len() > 0,
{
    let tiles = tile_count(rows, tile_rows);
    lemma_fundamental_div_mod(rows + tile_rows - 1, tile_rows);
    assert(tile * tile_rows < rows && 0 <= tile * tile_rows) by (nonlinear_arith)
        requires
            0 <= tile < tiles,
            tile_rows > 0,
            rows + tile_rows - 1 >= tile_rows * tiles,
    ;
    assert((tile + 1) * tile_rows == tile * tile_rows + tile_rows) by (nonlinear_arith);
    let start = tile_start(rows, tile_rows, tile);
    let end = tile_start(rows, tile_rows, tile + 1);
    assert(0 <= start * (2 * columns) < end * (2 * columns) <= rows * (2 * columns))
        by (nonlinear_arith)
        requires
            0 <= start < end <= rows,
            columns > 0,
    ;
    let length = end * (2 * columns) - start * (2 * columns);
    assert(length == 2 * ((end - start) * columns)) by (nonlinear_arith)
        requires
            length == end * (2 * columns) - start * (2 * columns),
    ;
}

/// The offsets of a packed matrix start at zero, rise with every tile and end
/// with the packed bytes; the bytes between two offsets decode to the rows of
/// the tile.
pub proof fn law_matrix_round_trip(
    source: Seq<u8>,
    rows: int,
    columns: int,
    tile_rows: int,
    tile: int,
)
    requires
        rows >= 0,
        columns >= 0,
        tile_rows >= 0,
        matrix_encoding(source, rows, columns, tile_rows) is Ok,
        0 <= tile < tile_count(rows, tile_rows),
    ensures
        ({
            let (packed, offsets) = matrix_encoding(source, rows, columns, tile_rows)->Ok_0;
            let bytes = tile_bytes(source, rows, columns, tile_rows, tile);
            &&& offsets.len() == tile_count(rows, tile_rows) + 1
            &&& offsets[0] == 0
            &&& offsets.last() == packed.len()
            &&& offsets[tile] < offsets[tile + 1] <= packed.len()
            &&& bitpack::bitpack_decoding(
                packed.subrange(offsets[tile] as int, offsets[tile + 1] as int),
                bytes.len(),
            ) == Ok::<Seq<u8>, Seq<char>>(bytes)
        }),
{
    let tiles = tile_count(rows, tile_rows);
    let packed = packed_tiles(source, rows, columns, tile_rows, tiles);
    let bytes = tile_bytes(source, rows, columns, tile_rows, tile);
    let before = packed_tiles(source, rows, columns, tile_rows, tile);
    let through = packed_tiles(source, rows, columns, tile_rows, tile + 1);
    lemma_tile(source, rows, columns, tile_rows, tile);
    lemma_packed_grows(source, rows, columns, tile_rows, tile, tiles);
    lemma_packed_grows(source, rows, columns, tile_rows, tile + 1, tiles);
    bitpack::law_bitpack_round_trip(bytes);
    assert(packed.subrange(before.len() as int, through.len() as int) =~= through.skip(
        before.len() as int,
    )) by {
        assert(packed.take(through.len() as int) == through);
    }
    assert(through.skip(before.len() as int) =~= bitpack::bitpacked(bf16::values_of(bytes)));
}

/// The offsets of a packed matrix never fall, and the packed bytes hold at
/// least the header of one tile.
pub proof fn law_offsets_never_fall(source: Seq<u8>, rows: int, columns: int, tile_rows: int)
    requires
        rows >= 0,
        columns >= 0,
        tile_rows >= 0,
        matrix_encoding(source, rows, columns, tile_rows) is Ok,
    ensures
        ({
            let (packed, offsets) = matrix_encoding(source, rows, columns, tile_rows)->Ok_0;
            &&& packed.len() >= 4
            &&& offsets.len() == tile_count(rows, tile_rows) + 1
            &&& offsets[0] == 0
            &&& offsets.last() == packed.len()
            &&& forall|i: int, j: int| 0 <= i <= j < offsets.len() ==> offsets[i] <= offsets[j]
        }),
{
    let tiles = tile_count(rows, tile_rows);
    let (packed, offsets) = matrix_encoding(source, rows, columns, tile_rows)->Ok_0;
    lemma_tiles_end(rows, tile_rows);
    lemma_packed_grows(source, rows, columns, tile_rows, 1, tiles);
    assert forall|i: int, j: int| 0 <= i <= j < offsets.len() implies offsets[i] <= offsets[j] by {
        lemma_packed_grows(source, rows, columns, tile_rows, i, j);
        lemma_packed_grows(source, rows, columns, tile_rows, j, tiles);
    }
}

/// The tiles of a matrix cover its bytes in order, without gap or overlap.
pub proof fn law_tiles_cover(source: Seq<u8>, rows: int, columns: int, tile_rows: int, tile: int)
    requires
        rows > 0,
        columns > 0,
        tile_rows > 0,
        source.len() == rows * (2 * columns),
        0 <= tile < tile_count(rows, tile_rows),
    ensures
        tile_start(rows, tile_rows, 0) == 0,
        tile_start(rows, tile_rows, tile_count(rows, tile_rows)) == rows,
        source.take(tile_start(rows, tile_rows, tile + 1) * (2 * columns)) == source.take(
            tile_start(rows, tile_rows, tile) * (2 * columns),
        ) + tile_bytes(source, rows, columns, tile_rows, tile),
{
    lemma_tile(source, rows, columns, tile_rows, tile);
    lemma_tiles_end(rows, tile_rows);
    let start = tile_start(rows, tile_rows, tile) * (2 * columns);
    let end = tile_start(rows, tile_rows, tile + 1) * (2 * columns);
    assert(source.take(end) =~= source.take(start) + source.subrange(start, end));
}

proof fn lemma_tiles_end(rows: int, tile_rows: int)
    requires
        rows > 0,
        tile_rows > 0,
    ensures
        tile_start(rows, tile_rows, tile_count(rows, tile_rows)) == rows,
        tile_count(rows, tile_rows) > 0,
{
    let tiles = tile_count(rows, tile_rows);
    lemma_fundamental_div_mod(rows + tile_rows - 1, tile_rows);
    lemma_mod_bound(rows + tile_rows - 1, tile_rows);
    assert(tiles * tile_rows >= rows) by (nonlinear_arith)
        requires
            rows + tile_rows - 1 == tile_rows * tiles + (rows + tile_rows - 1) % tile_rows,
            (rows + tile_rows - 1) % tile_rows < tile_rows,
    ;
    assert(tiles > 0) by (nonlinear_arith)
        requires
            tiles * tile_rows >= rows,
            rows > 0,
            tile_rows > 0,
    ;
}

/// A tile that starts before the last row is one of the tiles.
proof fn lemma_tile_in_range(rows: int, tile_rows: int, tile: int)
    requires
        rows > 0,
        tile_rows > 0,
        0 <= tile,
        tile * tile_rows < rows,
    ensures
        tile < tile_count(rows, tile_rows),
{
    let tiles = tile_count(rows, tile_rows);
    lemma_fundamental_div_mod(rows + tile_rows - 1, tile_rows);
    lemma_mod_bound(rows + tile_rows - 1, tile_rows);
    assert(tile < tiles) by (nonlinear_arith)
        requires
            tile * tile_rows < rows,
            rows + tile_rows - 1 == tile_rows * tiles + (rows + tile_rows - 1) % tile_rows,
            (rows + tile_rows - 1) % tile_rows < tile_rows,
            tile_rows > 0,
    ;
}

/// Packs a row-major BF16 matrix in tiles of `tile_rows` rows.
pub fn encode_bf16_bitpack_matrix(
    source: &[u8],
    rows: usize,
    columns: usize,
    tile_rows: usize,
) -> (result: Result<(Vec<u8>, Vec<u32>), String>)
    ensures
        matrix_outcome(result) == matrix_encoding(
            source@,
            rows as int,
            columns as int,
            tile_rows as int,
        ),
{
    if rows == 0 || columns == 0 || tile_rows == 0 {
        return Err("BF16 bitpack matrix dimensions must be non-zero".to_owned());
    }
    let row_bytes: usize = match columns.checked_mul(2) {
        Some(row_bytes) => row_bytes,
        None => {
            return Err("BF16 bitpack matrix row byte length overflow".to_owned());
        },
    };
    let expected_len: usize = match rows.checked_mul(row_bytes) {
        Some(expected_len) => expected_len,
        None => {
            return Err("BF16 bitpack matrix dimensions overflow".to_owned());
        },
    };
    if source.len() != expected_len {
        return Err("BF16 bitpack matrix byte length does not match dimensions".to_owned());
    }
    let ghost r = rows as int;
    let ghost c = columns as int;
    let ghost tr = tile_rows as int;
    let ghost tiles = tile_count(r, tr);
    let ghost mut tile: int = 0;
    let mut packed: Vec<u8> = Vec::new();
    let mut offsets: Vec<u32> = Vec::new();
    let mut row_start: usize = 0;
    let mut start: usize = 0;
    proof {
        lemma_tiles_end(r, tr);
    }
    while row_start < rows
        invariant
            r == rows,
            c == columns,
            tr == tile_rows,
            rows > 0,
            columns > 0,
            tile_rows > 0,
            row_bytes == 2 * c,
            source@.len() == r * (2 * c),
            tiles == tile_count(r, tr),
            tile_start(r, tr, tiles) == r,
            0 <= tile <= tiles,
            row_start == tile_start(r, tr, tile),
            row_start <= rows,
            start == row_start * (2 * c),
            packed@ == packed_tiles(source@, r, c, tr, tile),
            offsets@ == tile_offsets(source@, r, c, tr, tile - 1),
            expected_len == source@.len(),
        decreases rows - row_start,
    {
        proof {
            lemma_tile_in_range(r, tr, tile);
            lemma_tile(source@, r, c, tr, tile);
            lemma_packed_grows(source@, r, c, tr, tile, tiles);
        }
        let remaining: usize = rows - row_start;
        let row_count: usize = if tile_rows < remaining { tile_rows } else { remaining };
        proof {
            assert((tile + 1) * tr == tile * tr + tr) by (nonlinear_arith);
            assert(row_start + row_count == tile_start(r, tr, tile + 1));
            assert(row_start * (2 * c) + row_count * (2 * c) == (row_start + row_count) * (2 * c))
                by (nonlinear_arith);
        }
        assert(row_count * row_bytes == row_count * (2 * c));
        assert(row_count * (2 * c) >= 0) by (nonlinear_arith)
            requires
                c > 0,
        ;
        let end: usize = start + row_count * row_bytes;
        if packed.len() > 0xffff_ffff {
            return Err("BF16 bitpack matrix exceeds 4 GiB offset range".to_owned());
        }
        offsets.push(packed.len() as u32);
        let rows_of_tile = slice_subrange(source, start, end);
        match bitpack::encode_bf16_bitpack(rows_of_tile) {
            Ok(mut encoded) => {
                packed.append(&mut encoded);
            },
            Err(message) => {
                return Err(message);
            },
        }
        proof {
            assert(rows_of_tile@ =~= tile_bytes(source@, r, c, tr, tile));
            assert(packed@ == packed_tiles(source@, r, c, tr, tile + 1));
            assert(offsets@ =~= tile_offsets(source@, r, c, tr, tile));
            tile = tile + 1;
        }
        row_start += row_count;
        start = end;
    }
    proof {
        if tile < tiles {
            lemma_tile(source@, r, c, tr, tile);
            assert(false);
        }
    }
    if packed.len() > 0xffff_ffff {
        return Err("BF16 bitpack matrix exceeds 4 GiB offset range".to_owned());
    }
    offsets.push(packed.len() as u32);
    proof {
        assert(offsets@ =~= tile_offsets(source@, r, c, tr, tiles));
    }
    Ok((packed, offsets))
}

} // verus!
