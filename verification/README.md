# chess_analizer

A chess analysis toolkit: it reads PGN games, has Stockfish evaluate every
distinct position once, classifies each move by the evaluation it lost, finds
missed mates, and writes annotated PGN and JSON.

The library in `src/` is verified with Verus; its contracts state what each
function computes over mathematical models of the data (sequences of
characters, maps, bitboards as integers).

- `model` – games, moves, evaluations, classifications, findings; the year of a game.
- `pgn` – building games from the events a PGN reader reports.
- `annotations` – move classification, with its laws.
- `tactics` – missed-mate detection, with its laws.
- `cache` – the position cache keyed by Zobrist hash, with its laws.
- `scheduler` – resources, the distinct positions to analyse, filling games from the cache.
- `engine` – UCI commands and the reading of the engine's answer.
- `exporter` – annotated PGN.
- `config` – command line over configuration file over defaults.
- `features` – attacks, hanging and pinned pieces, passed pawns on bitboards.
- `chess` – the chess rules taken from the `shakmaty` crate.
- `text` – characters, tokens, trimming, decimal numbers.

`app/` holds the program around it: argument parsing (clap), the configuration
file and JSON output (serde), reading PGN text (pgn-reader), and the pool of
Stockfish processes (tokio).
