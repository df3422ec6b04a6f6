# wdn

The verified core of a tile-based game and its tooling, written in Verus.

`src/` is the library. Its functions carry contracts that Verus proves,
except a few small wrappers around calls into std, `itertools`,
`roxmltree`, `resvg` and `rand`, whose contracts are assumed: each says in
its doc comment what it claims of the call it makes.

- `sprite`, `wall`, `catalog`, `sheet`, `parts`, `render`: how the wall,
  door and stair sprites of a tile follow from its neighbourhood, the
  tables and constants that number them, and the spritesheet they are drawn
  in.
- `material`, `adjacency`, `index`, `collision`, `door`, `packed`: tile
  materials, the record of which neighbours are walls, doors or stairs, the
  index from tiles to the objects on them, what a collision is with, and
  the data handed to the tile shader.
- `tileset`: the tiles of several images stacked into one tileset image.
- `generate`, `worldmap`: a grid of macro tiles generated by wave function
  collapse, in which every tile allows each of its neighbours, and the
  walls and doors it paints onto the world.
- `tensor`, `op`, `node`, `codegen`: tensor types and their broadcasting,
  the operations of the policy network and the order in which its graph is
  compiled; `policy`: the interface of a policy.

`app/` holds the program around the library: file and image I/O, the
spritesheet and tileset images it writes, and the Rust code that the network
compiler emits.
`tests/` runs the library on concrete values.
