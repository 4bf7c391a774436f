//! The static world map: which cells are home, food, open ground or wall.

use vstd::prelude::*;
use crate::trail::lemma_cell_index;

verus! {

/// The classification of one cell of the world.
#[derive(Clone, Copy, Debug, PartialEq, Eq, Structural)]
pub enum Zone {
    /// Part of the nest.
    Home,
    /// Part of a food source.
    Food,
    /// Open ground.
    Open,
    /// An obstacle.
    Wall,
}

/// Why a world map cannot be built.
#[derive(Clone, Copy, Debug, PartialEq, Eq, Structural)]
pub enum WorldError {
    /// The bytes are not an image that the decoder accepts.
    Undecodable,
    /// The image does not have the resolution of the simulation.
    ResolutionMismatch { expected_width: u32, expected_height: u32, width: u32, height: u32 },
    /// The width or the height is zero.
    Empty,
    /// The pixel data does not hold four bytes for every cell.
    WrongLength,
}

/// A decoded image: `width * height` pixels, row by row, four bytes each in
/// the order red, green, blue, alpha.
pub struct RawImage {
    pub width: u32,
    pub height: u32,
    pub pixels: Vec<u8>,
}

/// Level from which a colour component counts as lit.
pub const LIT: u8 = 128;

/// The zone that a pixel stands for. A pixel with exactly one lit component
/// is home if that component is blue, food if it is green and wall if it is
/// red. Every other pixel is open ground. Alpha plays no part.
pub open spec fn zone_of(red: u8, green: u8, blue: u8) -> Zone {
    if blue >= LIT && red < LIT && green < LIT {
        Zone::Home
    } else if green >= LIT && red < LIT && blue < LIT {
        Zone::Food
    } else if red >= LIT && green < LIT && blue < LIT {
        Zone::Wall
    } else {
        Zone::Open
    }
}

/// Returns the zone that a pixel stands for.
pub fn classify(red: u8, green: u8, blue: u8) -> (zone: Zone)
    ensures
        zone == zone_of(red, green, blue),
{
    if blue >= LIT && red < LIT && green < LIT {
        Zone::Home
    } else if green >= LIT && red < LIT && blue < LIT {
        Zone::Food
    } else if red >= LIT && green < LIT && blue < LIT {
        Zone::Wall
    } else {
        Zone::Open
    }
}

/// A world map as mathematical values, stored row by row.
pub struct WorldModel {
    /// Number of columns.
    pub width: nat,
    /// Number of rows.
    pub height: nat,
    /// The zone of every cell.
    pub zones: Seq<Zone>,
}

impl WorldModel {
    /// The map has cells and one zone for each of them, and its sides can be
    /// counted in 32 bits.
    pub open spec fn wf(self) -> bool {
        &&& self.width > 0
        &&& self.height > 0
        &&& self.width <= u32::MAX
        &&& self.height <= u32::MAX
        &&& self.width * self.height <= usize::MAX
        &&& self.zones.len() == self.width * self.height
    }

    /// Whether column `x` of row `y` is a cell of the map.
    pub open spec fn on_map(self, x: int, y: int) -> bool {
        0 <= x < self.width && 0 <= y < self.height
    }

    /// The zone at column `x` of row `y`.
    pub open spec fn zone_at(self, x: int, y: int) -> Zone {
        self.zones[y * self.width + x]
    }

    /// The map that the pixels of an image of `width` by `height` stand for.
    pub open spec fn from_pixels(width: nat, height: nat, pixels: Seq<u8>) -> WorldModel {
        WorldModel {
            width,
            height,
            zones: Seq::new(
                width * height,
                |i: int| zone_of(pixels[4 * i], pixels[4 * i + 1], pixels[4 * i + 2]),
            ),
        }
    }

    /// What building a map from raw pixels yields.
    pub open spec fn from_rgba(width: u32, height: u32, pixels: Seq<u8>) -> Result<
        WorldModel,
        WorldError,
    > {
        if width == 0 || height == 0 {
            Err(WorldError::Empty)
        } else if pixels.len() != 4 * width * height {
            Err(WorldError::WrongLength)
        } else {
            Ok(WorldModel::from_pixels(width as nat, height as nat, pixels))
        }
    }

    /// What building a map from a decoded image yields, given the resolution
    /// that the simulation expects.
    pub open spec fn from_image(
        image_width: u32,
        image_height: u32,
        pixels: Seq<u8>,
        width: u32,
        height: u32,
    ) -> Result<WorldModel, WorldError> {
        if image_width != width || image_height != height {
            Err(
                WorldError::ResolutionMismatch {
                    expected_width: width,
                    expected_height: height,
                    width: image_width,
                    height: image_height,
                },
            )
        } else {
            WorldModel::from_rgba(width, height, pixels)
        }
    }

    /// What loading a map from an encoded image yields, given what the
    /// decoder makes of the bytes.
    pub open spec fn from_decoding(
        decoding: Option<(u32, u32, Seq<u8>)>,
        width: u32,
        height: u32,
    ) -> Result<WorldModel, WorldError> {
        match decoding {
            None => Err(WorldError::Undecodable),
            Some(image) => WorldModel::from_image(image.0, image.1, image.2, width, height),
        }
    }
}

/// The static classification grid. It does not change once it is built.
pub struct WorldMap {
    width: usize,
    height: usize,
    zones: Vec<Zone>,
}

impl View for WorldMap {
    type V = WorldModel;

    closed spec fn view(&self) -> WorldModel {
        WorldModel { width: self.width as nat, height: self.height as nat, zones: self.zones@ }
    }
}

/// Whether a built map is the one that was asked for, or fails as it should.
pub open spec fn built_as(
    built: Result<WorldMap, WorldError>,
    wanted: Result<WorldModel, WorldError>,
) -> bool {
    match built {
        Ok(map) => wanted == Ok::<WorldModel, WorldError>(map@) && map@.wf(),
        Err(error) => wanted == Err::<WorldModel, WorldError>(error),
    }
}

impl WorldMap {
    /// Builds the map of `width` by `height` cells that the pixels stand for.
    pub fn from_rgba(width: u32, height: u32, pixels: &[u8]) -> (built: Result<
        WorldMap,
        WorldError,
    >)
        ensures
            built_as(built, WorldModel::from_rgba(width, height, pixels@)),
    {
        if width == 0 || height == 0 {
            return Err(WorldError::Empty);
        }
        assert(4 * width * height <= 4 * 0xffff_ffff * 0xffff_ffff) by (nonlinear_arith)
            requires
                width <= 0xffff_ffff,
                height <= 0xffff_ffff,
        ;
        let wanted: u128 = 4 * (width as u128) * (height as u128);
        if pixels.len() as u128 != wanted {
            return Err(WorldError::WrongLength);
        }
        let cells: usize = pixels.len() / 4;
        assert(4 * width * height == 4 * (width * height)) by (nonlinear_arith);
        let mut zones: Vec<Zone> = Vec::with_capacity(cells);
        let mut i: usize = 0;
        while i < cells
            invariant
                i <= cells,
                4 * cells == pixels.len(),
                zones.len() == i,
                forall|k: int|
                    0 <= k < i ==> #[trigger] zones[k] == zone_of(
                        pixels[4 * k],
                        pixels[4 * k + 1],
                        pixels[4 * k + 2],
                    ),
            decreases cells - i,
        {
            let zone = classify(pixels[4 * i], pixels[4 * i + 1], pixels[4 * i + 2]);
            zones.push(zone);
            i = i + 1;
        }
        let map = WorldMap { width: width as usize, height: height as usize, zones };
        assert(map@.zones =~= WorldModel::from_pixels(width as nat, height as nat, pixels@).zones);
        Ok(map)
    }

    /// Builds the map that a decoded image stands for, provided the image
    /// has exactly the resolution `width` by `height` of the simulation.
    pub fn from_image(image: &RawImage, width: u32, height: u32) -> (built: Result<
        WorldMap,
        WorldError,
    >)
        ensures
            built_as(
                built,
                WorldModel::from_image(image.width, image.height, image.pixels@, width, height),
            ),
    {
        if image.width != width || image.height != height {
            return Err(
                WorldError::ResolutionMismatch {
                    expected_width: width,
                    expected_height: height,
                    width: image.width,
                    height: image.height,
                },
            );
        }
        WorldMap::from_rgba(width, height, image.pixels.as_slice())
    }

    /// Decodes a PNG image and builds the map that it stands for, provided
    /// the image has exactly the resolution `width` by `height` of the
    /// simulation.
    pub fn load(encoded: &[u8], width: u32, height: u32) -> (built: Result<WorldMap, WorldError>)
        ensures
            built_as(built, WorldModel::from_decoding(decoded_png(encoded@), width, height)),
    {
        match decode(encoded) {
            Ok(image) => WorldMap::from_image(&image, width, height),
            Err(error) => Err(error),
        }
    }

    /// Number of columns.
    pub fn width(&self) -> (w: usize)
        ensures
            w == self@.width,
    {
        self.width
    }

    /// Number of rows.
    pub fn height(&self) -> (h: usize)
        ensures
            h == self@.height,
    {
        self.height
    }

    /// The zone at column `x` of row `y`.
    pub fn zone_at(&self, x: usize, y: usize) -> (zone: Zone)
        requires
            self@.wf(),
            self@.on_map(x as int, y as int),
        ensures
            zone == self@.zone_at(x as int, y as int),
    {
        proof {
            lemma_cell_index(self.width as int, self.height as int, x as int, y as int);
        }
        self.zones[y * self.width + x]
    }
}

/// What the PNG decoder of the `image` crate makes of a sequence of bytes:
/// nothing if it rejects them, else the width, the height and the pixels
/// converted to eight-bit RGBA.
pub uninterp spec fn decoded_png(encoded: Seq<u8>) -> Option<(u32, u32, Seq<u8>)>;

/// The error of the `image` crate. Nothing is read from it.
#[verifier::external_type_specification]
#[verifier::external_body]
pub struct ExImageError(image::ImageError);

/// Calls `image::load_from_memory_with_format` with the PNG format, converts
/// the picture with `DynamicImage::to_rgba8` and takes it apart with
/// `ImageBuffer::dimensions` and `ImageBuffer::into_raw`. The contract only
/// names the outcome: the same bytes always decode to the same picture or
/// are always rejected. Nothing is claimed about which bytes are accepted,
/// nor about the size of the pixel data.
#[verifier::external_body]
fn decode_png(encoded: &[u8]) -> (decoded: Result<RawImage, image::ImageError>)
    ensures
        match decoded {
            Ok(picture) => decoded_png(encoded@) == Some(
                (picture.width, picture.height, picture.pixels@),
            ),
            Err(_) => decoded_png(encoded@).is_none(),
        },
{
    let picture = image::load_from_memory_with_format(encoded, image::ImageFormat::Png)?;
    let rgba = picture.to_rgba8();
    let size: (u32, u32) = rgba.dimensions();
    Ok(RawImage { width: size.0, height: size.1, pixels: rgba.into_raw() })
}

/// Decodes a PNG image into eight-bit RGBA pixels. Bytes that the decoder
/// rejects give `Undecodable`.
pub fn decode(encoded: &[u8]) -> (decoded: Result<RawImage, WorldError>)
    ensures
        match decoded {
            Ok(picture) => decoded_png(encoded@) == Some(
                (picture.width, picture.height, picture.pixels@),
            ),
            Err(error) => error == WorldError::Undecodable && decoded_png(encoded@).is_none(),
        },
{
    match decode_png(encoded) {
        Ok(picture) => Ok(picture),
        Err(_) => Err(WorldError::Undecodable),
    }
}

/// How the pixels of an RGBA image are laid out for upload to a texture.
#[derive(Clone, Copy, Debug, PartialEq, Eq, Structural)]
pub struct TextureLayout {
    /// Bytes from the start of one row to the start of the next.
    pub bytes_per_row: u32,
    /// Number of rows.
    pub rows_per_image: u32,
    /// Size of the whole image in bytes.
    pub total_bytes: u64,
}

/// Number of bytes of one RGBA pixel.
pub const BYTES_PER_PIXEL: u32 = 4;

/// Computes the upload layout of a tightly packed RGBA image, or nothing if
/// the length of a row does not fit the field that holds it.
pub fn texture_layout(width: u32, height: u32) -> (layout: Option<TextureLayout>)
    ensures
        layout == (if BYTES_PER_PIXEL * width <= u32::MAX {
            Some(
                TextureLayout {
                    bytes_per_row: (BYTES_PER_PIXEL * width) as u32,
                    rows_per_image: height,
                    total_bytes: (BYTES_PER_PIXEL * width * height) as u64,
                },
            )
        } else {
            None
        }),
{
    match width.checked_mul(BYTES_PER_PIXEL) {
        None => None,
        Some(bytes_per_row) => {
            assert(bytes_per_row * height <= 0xffff_ffff * 0xffff_ffff) by (nonlinear_arith)
                requires
                    bytes_per_row <= 0xffff_ffff,
                    height <= 0xffff_ffff,
            ;
            assert(BYTES_PER_PIXEL * width * height == bytes_per_row * height) by (nonlinear_arith)
                requires
                    bytes_per_row == width * BYTES_PER_PIXEL,
            ;
            Some(
                TextureLayout {
                    bytes_per_row,
                    rows_per_image: height,
                    total_bytes: (bytes_per_row as u64) * (height as u64),
                },
            )
        },
    }
}

} // verus!
