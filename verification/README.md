# VinilCut

VinilCut turns a cover image and an audio file into a video of a spinning record
or tape reel. It runs as a small web server in front of FFmpeg, and can send the
result to Telegram as a round video note.

The rules live in the library under `src/`, which is written in Verus: its
functions carry contracts, and Verus proves them. What is not proved is what the
library believes of other code. A few small functions, marked
`#[verifier::external_body]`, call std or chrono; each says in its comment what is
taken on trust. Two of them, which read the clock in `clock`, promise nothing of
what they return. What the program does with the outside world is in `app/`.

| Module    | What it holds                                                        |
|-----------|----------------------------------------------------------------------|
| `text`    | trimming, splitting and comparing text                               |
| `number`  | decimal and hexadecimal numbers, written and read                    |
| `double`  | the order of double-precision numbers, read off their bits           |
| `color`   | colors, and the tinted discs that are kept by color                  |
| `caption` | captions made safe for `drawtext`, and the date that stands in       |
| `graph`   | filter graphs, and the text along the label, the rim and the rib     |
| `quoting` | proofs that a caption reaches `drawtext` letter for letter           |
| `command` | the command lines of `ffmpeg` and `ffprobe`                          |
| `form`    | the upload form and the request it makes                             |
| `render`  | a render step by step, from the request to the encoder               |
| `jobs`    | the table of jobs, their progress and their results                  |
| `assets`  | the files every render draws on                                      |
| `note`    | round notes: which videos qualify, and whom they go to               |
| `reply`   | answers that turn a request down                                     |
| `clock`   | the clock that jobs are named by                                     |

The library holds no floating-point arithmetic. The sines and cosines that give
the corners of the glyphs of a curved caption, the seconds of a progress line and the percentage
they amount to are reckoned in `app/measure.rs`; the library takes them as plain
values.

`vinilcut` starts the server. `vinilcut send-note [video] [target]` sends a video.
