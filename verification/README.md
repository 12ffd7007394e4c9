# gstvosk

A GStreamer element that transcribes speech with the
[Vosk](https://alphacephei.com/vosk/) toolkit. It connects over websockets to a
Vosk server and produces a stream of text buffers, one for each recognised word.

- `src/` is the logic of the element, verified with Verus.
- `app/` is the GStreamer plugin around it: pads, tasks, the connection, and the
  JSON of the server.
- `tests/` runs the logic on concrete values.

```bash
gst-launch-1.0 \
  vosk_transcriber name=tc ! fakesink sync=true dump=true \
  uridecodebin uri=file:///talk.mp4 ! audioconvert ! tc.
```
