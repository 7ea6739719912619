# ARD Viewer

A viewer for remote desktops that speak Apple Remote Desktop, with session recording.

The library under `src/` holds the viewer's logic, and every item of it is verified
with Verus: what a message does to the windows, the connection form, the preferences
and a session; how a video stream is received, decoded, put together from slices and
presented; how tiles are packed for the GPU; how a take is captured, timed, encoded
and cut into files; and how passwords are kept.

The program under `app/` surrounds it with what has to touch the world: windows and
widgets, the GPU, threads, files, and the video codecs of the system. It asks the
library what to do and does it. It reads its shaders, icons and font from `assets/`
beside the program, and takes the protocol client through the `Connector` trait.

| Directory | What it holds |
|-----------|---------------|
| `src/viewer` | the windows, the connection form, the settings and a session, as one function from message to actions |
| `src/media` | the receive queue, the decoders' decisions, slices and frames |
| `src/renderer` | tile records, buffers and what is shown |
| `src/recording` | capture, timeline, encoder, files and labels of a take |
| `src/vault.rs` | the encrypted passwords |
| `tests` | what the library does on concrete values |
| `app` | the program |

What the library believes without proof is marked `external_body` or
`assume_specification` and says which function of which crate it stands for.
