//! Wall, door and stair sprite resolution for a tile map, tile material and
//! adjacency encodings, and tensor shape arithmetic for the policy network
//! compiler.

pub mod sprite;
pub mod tensor;
pub mod material;
pub mod adjacency;
pub mod wall;
pub mod sheet;
pub mod index;
pub mod collision;
pub mod policy;
pub mod catalog;
pub mod parts;
pub mod op;
pub mod node;
pub mod codegen;
pub mod render;
pub mod tileset;
pub mod door;
pub mod packed;
pub mod generate;
pub mod worldmap;
pub mod ids;
