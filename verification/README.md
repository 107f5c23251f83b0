# GigaAM

Speech recognition with GigaAM-v3, a Russian model in two variants: CTC, the
faster, and RNN-T, the more accurate. The library in `src/` is verified with
Verus; `app/` puts it into a Tauri desktop application.

What the library holds:

| module | what it does |
| --- | --- |
| `text`, `error`, `tensor` | characters, messages, tensors and the greatest score |
| `features` | cutting a recording into windows, and the layout of their mel bands |
| `vocab` | the vocabulary file |
| `decode` | greedy CTC decoding, and tokens to text |
| `rnnt` | greedy transducer decoding |
| `model` | a model's files, its vocabulary, and the way from samples to text |
| `registry`, `engine`, `download` | the models, their state on disk and in memory, their download |
| `commands`, `provider` | what the user interface and the application ask for |
| `shortcuts` | the global shortcut that toggles recording |

The networks run in ONNX Runtime and the mel bands are floating-point
arithmetic. The library takes both as functions, and holds numbers as their bit
patterns. Its contracts say what comes out for whatever these functions give.
What it needs from the disk, the network and the system is handed in.

Key combinations are read by the `global-hotkey` crate. That call, in
`src/shortcuts.rs`, is the only thing that is trusted without proof.
