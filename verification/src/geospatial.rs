//! Geometries, and whether they are well-formed.
//!
//! Coordinates are doubles, held as their IEEE-754 bits. They are compared
//! by their keys, which stand to each other as the doubles do.

use crate::numeric::{double_key, key_of_double};
use vstd::prelude::*;

verus! {

/// The magnitude bits of the double 180.
pub const LONGITUDE_LIMIT: u64 = 0x4066_8000_0000_0000;

/// The magnitude bits of the double 90.
pub const LATITUDE_LIMIT: u64 = 0x4056_8000_0000_0000;

/// The engine for geospatial queries. It holds nothing.
#[derive(Debug, Clone, Copy)]
pub struct GeospatialEngine {}

/// The kinds of geospatial indexes.
#[derive(Debug, Clone, Copy, PartialEq, Eq, Structural)]
pub enum GeoIndexType {
    Geo2D,
    Geo2DSphere,
    GeoHaystack,
}

/// A point, by the bits of its longitude and of its latitude.
#[derive(Debug, Clone, Copy, PartialEq, Eq, Structural)]
pub struct GeoPoint {
    pub longitude: u64,
    pub latitude: u64,
}

/// A line through points.
#[derive(Debug, PartialEq)]
pub struct LineString {
    pub points: Vec<GeoPoint>,
}

/// A closed line.
#[derive(Debug, PartialEq)]
pub struct LinearRing {
    pub points: Vec<GeoPoint>,
}

/// An area: its outer ring and the rings of its holes.
#[derive(Debug, PartialEq)]
pub struct Polygon {
    pub rings: Vec<LinearRing>,
}

/// A geometry.
#[derive(Debug, PartialEq)]
pub enum GeoGeometry {
    Point(GeoPoint),
    LineString(LineString),
    Polygon(Polygon),
    MultiPoint(Vec<GeoPoint>),
    MultiLineString(Vec<LineString>),
    MultiPolygon(Vec<Polygon>),
    GeometryCollection(Vec<GeoGeometry>),
}

/// Whether a coordinate lies between a limit and its negative, the ends
/// included. A NaN lies nowhere.
pub open spec fn within(bits: u64, limit: u64) -> bool {
    match double_key(bits) {
        Some(k) => -(limit as int) <= k <= limit as int,
        None => false,
    }
}

/// Whether a point is on the globe: its longitude between -180 and 180,
/// its latitude between -90 and 90.
pub open spec fn point_valid(p: GeoPoint) -> bool {
    within(p.longitude, LONGITUDE_LIMIT) && within(p.latitude, LATITUDE_LIMIT)
}

/// Whether every point of a list is on the globe.
pub open spec fn points_valid(points: Seq<GeoPoint>) -> bool {
    forall|i: int| 0 <= i < points.len() ==> point_valid(#[trigger] points[i])
}

/// Whether a line is well-formed: at least two points, all on the globe.
pub open spec fn line_valid(l: LineString) -> bool {
    l.points@.len() >= 2 && points_valid(l.points@)
}

/// Whether a ring is well-formed: at least four points, all on the globe.
pub open spec fn ring_valid(r: LinearRing) -> bool {
    r.points@.len() >= 4 && points_valid(r.points@)
}

/// Whether a polygon is well-formed: at least one ring, every ring
/// well-formed.
pub open spec fn polygon_valid(p: Polygon) -> bool {
    p.rings@.len() >= 1 && forall|i: int| 0 <= i < p.rings@.len() ==> ring_valid(
        #[trigger] p.rings@[i],
    )
}

/// Whether a geometry is well-formed: its points, lines and polygons are,
/// and so is every geometry of a collection.
pub open spec fn geometry_valid(g: GeoGeometry) -> bool
    decreases g,
{
    match g {
        GeoGeometry::Point(p) => point_valid(p),
        GeoGeometry::LineString(l) => line_valid(l),
        GeoGeometry::Polygon(p) => polygon_valid(p),
        GeoGeometry::MultiPoint(points) => points_valid(points@),
        GeoGeometry::MultiLineString(lines) => forall|i: int|
            0 <= i < lines@.len() ==> line_valid(#[trigger] lines@[i]),
        GeoGeometry::MultiPolygon(polygons) => forall|i: int|
            0 <= i < polygons@.len() ==> polygon_valid(#[trigger] polygons@[i]),
        GeoGeometry::GeometryCollection(items) => forall|i: int|
            0 <= i < items.len() ==> geometry_valid(#[trigger] items[i]),
    }
}

fn coordinate_within(bits: u64, limit: u64) -> (r: bool)
    requires
        limit <= 0x7FF0_0000_0000_0000,
    ensures
        r == within(bits, limit),
{
    match key_of_double(bits) {
        Some(k) => -(limit as i64) <= k && k <= limit as i64,
        None => false,
    }
}

impl GeospatialEngine {
    /// An engine.
    pub fn new() -> (r: Self) {
        GeospatialEngine {  }
    }

    /// What an index key says for a kind of index.
    pub fn key_value(kind: GeoIndexType) -> (r: &'static str)
        ensures
            r@ == (match kind {
                GeoIndexType::Geo2D => "2d"@,
                GeoIndexType::Geo2DSphere => "2dsphere"@,
                GeoIndexType::GeoHaystack => "geoHaystack"@,
            }),
    {
        match kind {
            GeoIndexType::Geo2D => "2d",
            GeoIndexType::Geo2DSphere => "2dsphere",
            GeoIndexType::GeoHaystack => "geoHaystack",
        }
    }

    /// Whether a point is on the globe.
    pub fn validate_point(&self, point: &GeoPoint) -> (r: bool)
        ensures
            r == point_valid(*point),
    {
        coordinate_within(point.longitude, LONGITUDE_LIMIT) && coordinate_within(
            point.latitude,
            LATITUDE_LIMIT,
        )
    }

    /// Whether every point of a list is on the globe.
    pub fn validate_points(&self, points: &Vec<GeoPoint>) -> (r: bool)
        ensures
            r == points_valid(points@),
    {
        let mut i: usize = 0;
        while i < points.len()
            invariant
                i <= points.len(),
                forall|j: int| 0 <= j < i ==> point_valid(#[trigger] points@[j]),
            decreases points.len() - i,
        {
            if !self.validate_point(&points[i]) {
                return false;
            }
            i = i + 1;
        }
        true
    }

    /// Whether a line is well-formed.
    pub fn validate_line_string(&self, line: &LineString) -> (r: bool)
        ensures
            r == line_valid(*line),
    {
        line.points.len() >= 2 && self.validate_points(&line.points)
    }

    /// Whether a polygon is well-formed.
    pub fn validate_polygon(&self, polygon: &Polygon) -> (r: bool)
        ensures
            r == polygon_valid(*polygon),
    {
        if polygon.rings.len() == 0 {
            return false;
        }
        let mut i: usize = 0;
        while i < polygon.rings.len()
            invariant
                i <= polygon.rings.len(),
                forall|j: int| 0 <= j < i ==> ring_valid(#[trigger] polygon.rings@[j]),
            decreases polygon.rings.len() - i,
        {
            let ring = &polygon.rings[i];
            if ring.points.len() < 4 || !self.validate_points(&ring.points) {
                return false;
            }
            i = i + 1;
        }
        true
    }

    /// Whether a geometry is well-formed.
    #[verifier::loop_isolation(false)]
    pub fn validate_geo_json(&self, geometry: &GeoGeometry) -> (r: bool)
        ensures
            r == geometry_valid(*geometry),
        decreases geometry,
    {
        match geometry {
            GeoGeometry::Point(point) => self.validate_point(point),
            GeoGeometry::LineString(line) => self.validate_line_string(line),
            GeoGeometry::Polygon(polygon) => self.validate_polygon(polygon),
            GeoGeometry::MultiPoint(points) => self.validate_points(points),
            GeoGeometry::MultiLineString(lines) => {
                let mut i: usize = 0;
                while i < lines.len()
                    invariant
                        i <= lines.len(),
                        forall|j: int| 0 <= j < i ==> line_valid(#[trigger] lines@[j]),
                    decreases lines.len() - i,
                {
                    if !self.validate_line_string(&lines[i]) {
                        return false;
                    }
                    i = i + 1;
                }
                true
            },
            GeoGeometry::MultiPolygon(polygons) => {
                let mut i: usize = 0;
                while i < polygons.len()
                    invariant
                        i <= polygons.len(),
                        forall|j: int| 0 <= j < i ==> polygon_valid(#[trigger] polygons@[j]),
                    decreases polygons.len() - i,
                {
                    if !self.validate_polygon(&polygons[i]) {
                        return false;
                    }
                    i = i + 1;
                }
                true
            },
            GeoGeometry::GeometryCollection(items) => {
                let mut i: usize = 0;
                while i < items.len()
                    invariant
                        i <= items.len(),
                        forall|j: int| 0 <= j < i ==> geometry_valid(#[trigger] items[j]),
                    decreases items.len() - i,
                {
                    if !self.validate_geo_json(&items[i]) {
                        return false;
                    }
                    i = i + 1;
                }
                true
            },
        }
    }
}

} // verus!
