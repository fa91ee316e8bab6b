# midi-start-program

Starts a software synthesizer when a digital piano is played, keeps the computer awake while it
runs, and puts the computer to sleep when the playing is over.

- Any key of the piano starts the synthesizer. Where the piano can be reached, it confirms with a
  hard note, and its keys stop sounding by themselves.
- While the synthesizer runs, a volume of its own is set, and playing media are paused.
- To end, close the synthesizer, or strike the rightmost C five times and then the closest B flat,
  or let the idle timeout expire. The last two put the computer to sleep.

## Layout

`src/` is a Verus library. It decides and computes, and performs nothing itself: it asks for one
thing at a time (`protocol::Ask`) and goes on with the reply (`protocol::Reply`).

| module       | what it holds                                                           |
|--------------|-------------------------------------------------------------------------|
| `protocol`   | asks, replies, and how far a procedure gets with the replies it is given |
| `program`    | every procedure of the program, as a function of the world it starts in |
| `app`        | the program itself, proved to do what `program` says                    |
| `connection` | what the messages of the piano mean, and when nobody plays              |
| `volume`     | the two volumes                                                         |
| `midi_in`    | messages of the piano                                                   |
| `midi_out`   | messages to the piano, and the search for its output port               |
| `media`      | commands to the desktop                                                 |
| `process`    | the synthesizer                                                         |
| `error`      | what can go wrong                                                       |
| `text`       | searching and splitting text                                            |
| `laws`       | what holds of the program as a whole                                    |

`app/` is the program around it: the command line, signals, processes, files and MIDI ports.

`tests/` runs the library on scripts of replies.

## Running

    midi-start-program --synth /path/to/pianoteq --device-prefix "Digital Piano" --idle 180

It needs Linux with `systemctl`, PipeWire and WirePlumber with `wpctl`, and `playerctl`.
