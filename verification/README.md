# garden

The logic of the Garden — a world of beetles and rabbits whose behaviours are Ruby scripts run in
sabiruby's VM — as a library whose functions carry Verus contracts and are proved against them.

`src/` holds what can be said exactly: the species and their files, the editor's texts and the
programs each species wears, the save file's version and where it goes, the contacts and pushes
that are news once, the newborns told about the sky when they can first hear, the pairings the
breeding check counts, the meters of the creatures' and the world's VMs, the `P` key, the HUD's
order, the choice of the watched creature, the verdicts of the checks that are counts, and what
the game reads out of a creature's script in the VM (`scripts`, behind a few trusted calls into
sabiruby and sabiruby-serde). What a script remembers is read out for the save file and put back
after a load by those calls; that it comes back the same is the VM's and serde's doing, and is
tested rather than proved.

The game itself is not here. It is a Bevy application whose windows, panels and scripts run on
Bevy, bevy_egui, rubevy, rubevy_egui and the games' shared shell crate, and none of those is part
of this build; what is here is the logic those systems decide with.

`app/` is the rest that can be had here: the floating-point arithmetic of the genome, the field,
the camera and the rules' numbers, the JSON save file itself, and a small command line that
reads a garden, writes it back, and runs the save file's version check. The arithmetic there is
kept for the game's systems to call; the command line calls only what a save file needs.

`tests/` runs the library on concrete values, including a real VM for `scripts`.
